//! What the MediaCodec decoder does for its caller, told by what it asks for and what it
//! is answered.

use vstd::prelude::*;

use super::mediacodec::{
    allowed, run, Action, Image, Input, MediaCodecView, OutputInfo, Phase, Reply, Turn, Why,
};
use crate::error::Error;
use crate::time::Timestamp;

verus! {

/// The last time that can be sent, in microseconds.
pub const LAST_TIME: u64 = 0x3fff_ffff_ffff_ffff;

/// How many rounds without an input buffer a call is given.
pub const ROUNDS: u32 = 20;

/// A dimension without the odd last row or column of it.
pub open spec fn whole(dimension: i32) -> int {
    if dimension % 2 == 0 {
        dimension as int
    } else {
        dimension - 1
    }
}

/// A crop that starts at the origin, is not empty and fits in the buffer is the picture,
/// whether or not it fills the buffer in either direction: the visible size is the
/// crop's, less one where it is odd. A crop one pixel wide or high shows nothing.
pub proof fn law_the_crop_is_the_picture(image: Image)
    requires
        image.crop.left == 0,
        image.crop.top == 0,
        0 < image.crop.right <= image.width,
        0 < image.crop.bottom <= image.height,
    ensures
        image.crop.right > 1 && image.crop.bottom > 1 ==> {
            &&& image.visible() matches Some(size)
            &&& size.width == whole(image.crop.right)
            &&& size.height == whole(image.crop.bottom)
        },
        image.crop.right == 1 || image.crop.bottom == 1 ==> image.visible() is None,
{
}

/// A crop that is empty, starts elsewhere or runs past the buffer is not believed: the
/// picture is the whole buffer, less one where it is odd.
pub proof fn law_a_strange_crop_is_not_believed(image: Image)
    requires
        image.measurable(),
        image.crop.left != 0 || image.crop.top != 0 || image.crop.right <= 0 || image.crop.bottom
            <= 0 || image.crop.right > image.width || image.crop.bottom > image.height,
    ensures
        image.width > 1 && image.height > 1 ==> {
            &&& image.visible() matches Some(size)
            &&& size.width == whole(image.width)
            &&& size.height == whole(image.height)
        },
        image.width <= 1 || image.height <= 1 ==> image.visible() is None,
{
}

/// An output buffer is rendered exactly when it holds something that is not the
/// parameter sets echoed back, and is shown at the time it carries, or at once if that
/// is before the broadcast began.
pub proof fn law_what_is_rendered(
    decoder: MediaCodecView,
    why: Why,
    input: Input,
    info: OutputInfo,
)
    requires
        decoder.phase == (Phase::Draining { why, input }),
    ensures
        ({
            let (next, action) = decoder.step(Reply::Output(info));
            &&& action matches Action::ReleaseOutput { render }
            &&& render == (info.size > 0 && info.flags & 2 == 0)
            &&& next.phase == (Phase::Releasing { why, input, info })
            &&& next.rendered == decoder.rendered
        }),
        info.presentation_time_us >= 0 ==> info.shown_at() == info.presentation_time_us,
        info.presentation_time_us < 0 ==> info.shown_at() == 0,
{
}

/// What was rendered waits to be acquired, behind what was rendered before, and is asked
/// for right away. A buffer that was not rendered leaves nothing waiting. A time too far
/// out to send fails the call.
pub proof fn law_what_was_rendered_is_acquired(
    decoder: MediaCodecView,
    why: Why,
    input: Input,
    info: OutputInfo,
)
    requires
        decoder.phase == (Phase::Releasing { why, input, info }),
    ensures
        ({
            let (next, action) = decoder.step(Reply::Done);
            let time = if info.presentation_time_us < 0 {
                0
            } else {
                info.presentation_time_us as int
            };
            if info.size <= 0 || info.flags & 2 != 0 {
                &&& next.rendered == decoder.rendered
                &&& decoder.rendered.len() > 0 ==> action is AcquireImage && next.phase == (
                Phase::Acquiring { why, input, more: true })
                &&& decoder.rendered.len() == 0 ==> action is DequeueOutput && next.phase == (
                Phase::Draining { why, input })
            } else if time > LAST_TIME {
                &&& action matches Action::Fail(Error::TimestampRange { micros })
                &&& micros == time
                &&& next.rendered == decoder.rendered
            } else {
                &&& action is AcquireImage
                &&& next.phase == (Phase::Acquiring { why, input, more: true })
                &&& next.rendered == decoder.rendered.push(Timestamp::of(time as u64))
            }
        }),
{
}

/// Whether the decoder goes on past the images it could acquire: to more output if there
/// may be any, and otherwise to the input it has room for, or to the end of the call.
pub open spec fn goes_on(
    next: MediaCodecView,
    action: Action,
    why: Why,
    input: Input,
    more: bool,
) -> bool {
    if more {
        action is DequeueOutput && next.phase == (Phase::Draining { why, input })
    } else {
        match why {
            Why::Before => action is DequeueInput && next.phase == (Phase::Submitting {
                rounds: 0,
                input,
            }),
            Why::Starved { rounds } => if rounds + 1 < ROUNDS {
                action is DequeueInput && next.phase == (Phase::Submitting {
                    rounds: (rounds + 1) as u32,
                    input,
                })
            } else {
                action == Action::Fail(Error::InputStarved)
            },
            Why::After => action is Done,
        }
    }
}

/// Output is looked for until there is none, and whatever waits to be acquired is asked
/// for on the way.
pub proof fn law_a_drain_takes_all_there_is(decoder: MediaCodecView, why: Why, input: Input)
    requires
        decoder.phase == (Phase::Draining { why, input }),
    ensures
        decoder.rendered.len() > 0 ==> {
            &&& decoder.step(Reply::NoOutput).1 is AcquireImage
            &&& decoder.step(Reply::OutputChanged).1 is AcquireImage
            &&& decoder.step(Reply::NoOutput).0.phase == (Phase::Acquiring {
                why,
                input,
                more: false,
            })
            &&& decoder.step(Reply::OutputChanged).0.phase == (Phase::Acquiring {
                why,
                input,
                more: true,
            })
        },
        decoder.rendered.len() == 0 ==> {
            let (ended, last) = decoder.step(Reply::NoOutput);
            let (changed, action) = decoder.step(Reply::OutputChanged);
            &&& goes_on(ended, last, why, input, false)
            &&& goes_on(changed, action, why, input, true)
        },
{
}

/// An image is handed out in its visible size under the time that waited longest, which
/// waits no more, and the next one is asked for right after. An image that shows nothing
/// or cannot be read fails the call and takes its time with it. Without an image the
/// drain goes on; with every slot held it goes on too, once that was said.
#[verifier::spinoff_prover]
#[verifier::rlimit(40)]
pub proof fn law_images_are_handed_out(
    decoder: MediaCodecView,
    why: Why,
    input: Input,
    more: bool,
    image: Image,
)
    requires
        decoder.rendered.len() > 0,
    ensures
        decoder.phase == (Phase::Acquiring { why, input, more }) ==> {
            let rest = decoder.rendered.subrange(1, decoder.rendered.len() as int);
            let (next, action) = decoder.step(Reply::Acquired(image));
            let (lost, failed) = decoder.step(Reply::Unreadable);
            let (none, none_action) = decoder.step(Reply::NoImage);
            let (held, held_action) = decoder.step(Reply::NoSlot);
            &&& next.rendered == rest
            &&& image.visible() matches Some(shown) ==> {
                &&& action == (Action::Emit { size: shown, timestamp: decoder.rendered[0] })
                &&& next.phase == (Phase::Emitting { why, input, more })
            }
            &&& image.visible() is None ==> action == Action::Fail(
                Error::NotAPicture { width: image.width, height: image.height },
            )
            &&& lost.rendered == rest
            &&& failed == Action::Fail(Error::Refused)
            &&& none.rendered == decoder.rendered
            &&& !none.stalled
            &&& goes_on(none, none_action, why, input, more)
            &&& held.rendered == decoder.rendered
            &&& held.stalled
            &&& decoder.stalled ==> goes_on(held, held_action, why, input, more)
            &&& !decoder.stalled ==> held_action is WarnStalled && held.phase == (
            Phase::Warning { why, input, more })
        },
        decoder.phase == (Phase::Emitting { why, input, more }) ==> {
            let (next, action) = decoder.step(Reply::Done);
            &&& action is AcquireImage
            &&& next.phase == (Phase::Acquiring { why, input, more })
            &&& next.rendered == decoder.rendered
        },
        decoder.phase == (Phase::Warning { why, input, more }) ==> {
            let (next, action) = decoder.step(Reply::Done);
            &&& goes_on(next, action, why, input, more)
            &&& next.rendered == decoder.rendered
        },
{
}

/// After the last image that waits, the drain goes on.
pub proof fn law_the_last_image_is_followed_by_the_drain(
    decoder: MediaCodecView,
    why: Why,
    input: Input,
    more: bool,
)
    requires
        decoder.phase == (Phase::Emitting { why, input, more }),
        decoder.rendered.len() == 0,
    ensures
        goes_on(decoder.step(Reply::Done).0, decoder.step(Reply::Done).1, why, input, more),
{
}

/// An access unit is queued whole and under its own time in the first input buffer the
/// codec has, if it fits: up to every byte of it. Without one the codec is drained, which
/// is what frees one. What the unit produced is collected before the call ends.
pub proof fn law_an_access_unit_is_queued(
    decoder: MediaCodecView,
    rounds: u32,
    input: Input,
    capacity: usize,
)
    ensures
        decoder.phase == (Phase::Submitting { rounds, input }) ==> {
            let (next, action) = decoder.step(Reply::Input(capacity));
            let (starved, drained) = decoder.step(Reply::NoInput);
            &&& if input.len <= capacity {
                &&& action == (Action::QueueInput { len: input.len, time: input.time })
                &&& next.phase == (Phase::Queueing { input })
            } else {
                action == Action::Fail(Error::InputTooSmall { capacity, len: input.len })
            }
            &&& drained is DequeueOutput
            &&& starved.phase == (Phase::Draining { why: Why::Starved { rounds }, input })
        },
        decoder.phase == (Phase::Queueing { input }) ==> {
            let (next, action) = decoder.step(Reply::Done);
            &&& action is DequeueOutput
            &&& next.phase == (Phase::Draining { why: Why::After, input })
        },
        ({
            let (next, action) = decoder.decode(input.len, input.time);
            &&& action is DequeueOutput
            &&& next.phase == (Phase::Draining { why: Why::Before, input })
            &&& next.rendered == decoder.rendered
            &&& next.stalled == decoder.stalled
        }),
{
}

/// A refusal fails the call and leaves what waits to be acquired waiting.
pub proof fn law_refusals_fail_the_call(decoder: MediaCodecView)
    ensures
        decoder.step(Reply::Refused).1 == Action::Fail(Error::Refused),
        decoder.step(Reply::Refused).0.phase is Idle,
        decoder.step(Reply::Refused).0.rendered == decoder.rendered,
        decoder.step(Reply::Refused).0.stalled == decoder.stalled,
{
}

/// A decoder takes every answer the codec and the reader can give to what was asked.
pub proof fn law_every_answer_is_taken(
    decoder: MediaCodecView,
    info: OutputInfo,
    image: Image,
    capacity: usize,
)
    ensures
        !(decoder.phase is Idle) ==> decoder.expects(Reply::Refused),
        decoder.phase is Draining ==> {
            &&& decoder.expects(Reply::Output(info))
            &&& decoder.expects(Reply::NoOutput)
            &&& decoder.expects(Reply::OutputChanged)
        },
        decoder.phase is Acquiring ==> {
            &&& -0x8000_0000 <= image.crop.right - image.crop.left <= 0x7fff_ffff && -0x8000_0000
                <= image.crop.bottom - image.crop.top <= 0x7fff_ffff ==> decoder.expects(
                Reply::Acquired(image),
            )
            &&& decoder.expects(Reply::Unreadable)
            &&& decoder.expects(Reply::NoImage)
            &&& decoder.expects(Reply::NoSlot)
        },
        decoder.phase is Submitting ==> {
            &&& decoder.expects(Reply::Input(capacity))
            &&& decoder.expects(Reply::NoInput)
        },
        decoder.phase is Releasing || decoder.phase is Emitting || decoder.phase is Warning
            || decoder.phase is Queueing ==> decoder.expects(Reply::Done),
{
}

/// What a call asks for after its last turn.
pub open spec fn asked(start: MediaCodecView, turns: Seq<Turn>) -> Action {
    run(start, turns.drop_last()).now.turn(turns.last()).1
}

/// Whether the turns are one call: an access unit, and the answers to what was asked
/// since.
pub open spec fn one_call(start: MediaCodecView, turns: Seq<Turn>, input: Input) -> bool {
    &&& allowed(start, turns)
    &&& turns.len() > 0
    &&& turns[0] == (Turn::Decode { len: input.len, time: input.time })
    &&& forall|i: int| 0 < i < turns.len() ==> (#[trigger] turns[i]) is Reply
}

/// How many of the turns found no input buffer.
pub open spec fn starved(turns: Seq<Turn>) -> nat
    decreases turns.len(),
{
    if turns.len() == 0 {
        0
    } else if turns.last() == Turn::Reply(Reply::NoInput) {
        starved(turns.drop_last()) + 1
    } else {
        starved(turns.drop_last())
    }
}

/// A call looks for an input buffer twenty times, and gives up for want of one only
/// then. What it queues is the access unit it was given, and it succeeds only with the
/// unit queued.
pub proof fn law_how_a_call_goes(start: MediaCodecView, turns: Seq<Turn>, input: Input)
    requires
        one_call(start, turns, input),
    ensures
        match asked(start, turns) {
            Action::DequeueInput => starved(turns) < 20,
            Action::Fail(Error::InputStarved) => starved(turns) == 20,
            Action::QueueInput { len, time } => {
                &&& len == input.len
                &&& time == input.time
                &&& turns.last() matches Turn::Reply(Reply::Input(capacity))
                &&& len <= capacity
            },
            Action::Done => queued(start, turns),
            _ => true,
        },
{
    lemma_call(start, turns, input);
    assert(turns.len() > 1 ==> turns.last() == turns[turns.len() - 1]);
}

/// Whether an access unit was queued and the codec took it.
pub open spec fn queued(start: MediaCodecView, turns: Seq<Turn>) -> bool
    decreases turns.len(),
{
    turns.len() > 1 && {
        ||| asked(start, turns.drop_last()) is QueueInput && turns.last() == Turn::Reply(
            Reply::Done,
        )
        ||| queued(start, turns.drop_last())
    }
}

/// Where a call is, after so many turns that found no input buffer.
spec fn underway(
    decoder: MediaCodecView,
    action: Action,
    count: nat,
    taken: bool,
    input: Input,
) -> bool {
    match decoder.phase {
        Phase::Idle => true,
        Phase::Submitting { rounds, input: of } => of == input && rounds == count && count < 20,
        Phase::Queueing { input: of } => of == input && action is QueueInput,
        Phase::Draining { why, input: of }
        | Phase::Releasing { why, input: of, .. }
        | Phase::Acquiring { why, input: of, .. }
        | Phase::Emitting { why, input: of, .. }
        | Phase::Warning { why, input: of, .. } => {
            &&& of == input
            &&& match why {
                Why::Before => count == 0,
                Why::Starved { rounds } => count == rounds + 1 && count <= 20,
                Why::After => taken,
            }
        },
    }
}

/// What a call may ask for, after so many turns that found no input buffer.
spec fn may_ask(action: Action, count: nat, taken: bool, input: Input, reply: Reply) -> bool {
    match action {
        Action::DequeueInput => count < 20,
        Action::Fail(Error::InputStarved) => count == 20,
        Action::QueueInput { len, time } => {
            &&& len == input.len
            &&& time == input.time
            &&& reply matches Reply::Input(capacity)
            &&& len <= capacity
        },
        Action::Done => taken,
        _ => true,
    }
}

#[verifier::spinoff_prover]
#[verifier::rlimit(40)]
proof fn lemma_call_step(
    decoder: MediaCodecView,
    action: Action,
    count: nat,
    taken: bool,
    input: Input,
    reply: Reply,
)
    requires
        underway(decoder, action, count, taken, input),
        decoder.expects(reply),
    ensures
        ({
            let (next, asks) = decoder.step(reply);
            let later = if reply is NoInput {
                count + 1
            } else {
                count
            };
            let done = taken || action is QueueInput && reply is Done;
            &&& underway(next, asks, later, done, input)
            &&& may_ask(asks, later, done, input, reply)
        }),
{
}

proof fn lemma_call(start: MediaCodecView, turns: Seq<Turn>, input: Input)
    requires
        one_call(start, turns, input),
    ensures
        underway(
            run(start, turns).now,
            asked(start, turns),
            starved(turns),
            queued(start, turns),
            input,
        ),
        turns.len() > 1 ==> may_ask(
            asked(start, turns),
            starved(turns),
            queued(start, turns),
            input,
            turns.last()->Reply_0,
        ),
        turns.len() == 1 ==> asked(start, turns) is DequeueOutput,
    decreases turns.len(),
{
    let earlier = turns.drop_last();
    if turns.len() == 1 {
        assert(starved(earlier) == 0);
        assert(turns.last() == turns[0]);
    } else {
        assert forall|i: int| 0 < i < earlier.len() implies (#[trigger] earlier[i]) is Reply by {
            assert(earlier[i] == turns[i]);
        }
        assert(earlier[0] == turns[0]);
        lemma_call(start, earlier, input);
        assert(turns.last() == turns[turns.len() - 1]);
        lemma_call_step(
            run(start, earlier).now,
            asked(start, earlier),
            starved(earlier),
            queued(start, earlier),
            input,
            turns.last()->Reply_0,
        );
    }
}

/// Whether decoding is stalled changes only when the reader says that every slot is held,
/// or that it has run dry.
pub proof fn law_only_the_reader_says_it_is_stalled(decoder: MediaCodecView, reply: Reply)
    ensures
        reply is NoSlot || reply is NoImage || decoder.step(reply).0.stalled == decoder.stalled,
        reply is NoSlot && decoder.phase is Acquiring ==> decoder.step(reply).0.stalled,
        reply is NoImage && decoder.phase is Acquiring ==> !decoder.step(reply).0.stalled,
{
}

/// A decoder takes nothing but an answer to what was asked, and nothing at all between
/// calls.
pub proof fn law_only_an_answer_is_taken(decoder: MediaCodecView, reply: Reply)
    requires
        decoder.expects(reply),
    ensures
        !(decoder.phase is Idle),
        match reply {
            Reply::Refused => true,
            Reply::Output(_) | Reply::NoOutput | Reply::OutputChanged => decoder.phase is Draining,
            Reply::Acquired(_) | Reply::Unreadable | Reply::NoImage | Reply::NoSlot => decoder.phase
                is Acquiring,
            Reply::Input(_) | Reply::NoInput => decoder.phase is Submitting,
            Reply::Done => decoder.phase is Releasing || decoder.phase is Emitting || decoder.phase
                is Warning || decoder.phase is Queueing,
        },
{
}

} // verus!

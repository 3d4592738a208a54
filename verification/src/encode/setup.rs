//! What setting an encoder up comes to, told by what is asked of the driver and what it
//! answers.

use vstd::prelude::*;

use super::open::{
    after, answers, lemma_one_reply_a_stage, lemma_progress, Action, Config, OpeningView, Reply,
    Stage,
};
use super::params::{coded_bytes_for, level_for};
use crate::error::Error;
use crate::frame::{lemma_area_bound, Size};
use crate::v4l2::format::{Dir, Format, Request};
use crate::v4l2::fourcc::{H264, NV12};
use crate::v4l2::planes::layout;
use crate::v4l2::queue::{AllocStep, QueueView};

verus! {

/// How many macroblocks of 16 by 16 pixels it takes to cover a picture that is `across`
/// of them wide and `down` of them high.
pub open spec fn covers(size: Size, across: int, down: int) -> bool {
    &&& 16 * (across - 1) < size.width <= 16 * across
    &&& 16 * (down - 1) < size.height <= 16 * down
}

/// The level asked for is the lowest whose frame size limit the picture's macroblocks stay
/// within: 396 for level 1.3, 1620 for 3.0, 3600 for 3.1, 8192 for 4.0, and 5.1 past
/// those. The numbers are the menu's.
pub proof fn law_the_level_is_the_lowest_that_clears(size: Size, across: int, down: int)
    requires
        covers(size, across, down),
    ensures
        level_for(size) == if across * down <= 396 {
            4int
        } else if across * down <= 1620 {
            8
        } else if across * down <= 3600 {
            9
        } else if across * down <= 8192 {
            11
        } else {
            15
        },
{
    assert((size.width as int + 15) / 16 == across);
    assert((size.height as int + 15) / 16 == down);
}

/// A coded buffer is half a byte for every pixel, but never under a quarter of a mebibyte
/// nor over four mebibytes.
pub proof fn law_a_coded_buffer_is_half_a_byte_a_pixel(size: Size)
    ensures
        ({
            let (bytes, pixels) = (coded_bytes_for(size), size.width as int * size.height as int);
            &&& 262_144 <= bytes <= 4_194_304
            &&& pixels < 524_288 ==> bytes == 262_144
            &&& pixels > 8_388_609 ==> bytes == 4_194_304
            &&& 524_288 <= pixels <= 8_388_609 ==> 2 * bytes <= pixels <= 2 * bytes + 1
        }),
{
    lemma_area_bound(size);
}

/// What is asked of the driver once it has given `answered` answers, up to the first
/// buffers: the profile, level, GOP and bitrate, the rate control, where the parameter
/// sets go and that they repeat, then the coded format, the raw format, and the framerate.
pub open spec fn setting(config: Config, answered: nat) -> Action {
    let control = |id: u32, value: int| Action::SetControl { id, value: value as i32 };
    if answered == 0 {
        control(0x0099_0a6b, 1)
    } else if answered == 1 {
        control(0x0099_0a67, level_for(config.size) as int)
    } else if answered == 2 {
        control(0x0099_09cb, config.gop as int)
    } else if answered == 3 {
        control(
            0x0099_09cf,
            if config.bitrate <= 0x7fff_ffff {
                config.bitrate as int
            } else {
                0x7fff_ffff
            },
        )
    } else if answered == 4 {
        control(0x0099_09ce, 1)
    } else if answered == 5 {
        control(0x0099_09d8, 1)
    } else if answered == 6 {
        control(0x0099_09e2, 1)
    } else if answered == 7 {
        control(0x0099_0b84, 1)
    } else if answered == 8 {
        Action::SetFormat {
            dir: Dir::Capture,
            request: Request {
                pixelformat: H264,
                size: config.size,
                sizeimage: Some(coded_bytes_for(config.size) as u32),
                color: None,
            },
        }
    } else if answered == 9 {
        Action::SetFormat {
            dir: Dir::Output,
            request: Request {
                pixelformat: NV12,
                size: config.size,
                sizeimage: None,
                color: Some(config.color),
            },
        }
    } else if answered == 10 {
        Action::SetFramerate { framerate: config.framerate }
    } else {
        Action::RequestBuffers { dir: Dir::Output, count: 4 }
    }
}

/// The driver is asked for everything an encoder needs in one order and with the values
/// the configuration calls for, whatever it answered before.
pub proof fn law_what_a_driver_is_asked(config: Config, replies: Seq<Reply>)
    requires
        config.size.valid(),
        answers(config, replies),
        replies.len() <= 11,
        !(after(config, replies).stage is Failed),
    ensures
        after(config, replies).asks() == setting(config, replies.len()),
        replies.len() > 0 ==> after(config, replies.drop_last()).step(replies.last()).1 == setting(
            config,
            replies.len(),
        ),
{
    lemma_one_reply_a_stage(config, replies);
    if replies.len() > 0 {
        lemma_one_reply_a_stage(config, replies.drop_last());
    }
}

/// What a driver may refuse: the rate control, where the parameter sets go, that they
/// repeat, and the framerate, each of which setting up goes on without. Every other
/// refusal is the end of it.
pub proof fn law_what_a_driver_may_refuse(config: Config, replies: Seq<Reply>)
    requires
        config.size.valid(),
        answers(config, replies),
        !(after(config, replies).stage is Failed),
        !(after(config, replies).stage is Ready),
    ensures
        ({
            let (next, action) = after(config, replies).step(Reply::Refused);
            &&& 4 <= replies.len() <= 7 ==> !(next.stage is Failed) && !(action is Fail)
            &&& replies.len() == 10 ==> (next.stage is Failed) == (layout(
                &after(config, replies).raw_format->0,
                config.size,
            ) is Err)
            &&& !(4 <= replies.len() <= 7) && replies.len() != 10 ==> {
                &&& next.stage is Failed
                &&& action == Action::Fail(Error::Refused)
            }
        }),
{
    lemma_one_reply_a_stage(config, replies);
}

/// A control or a framerate that the driver takes is followed by the next thing to ask,
/// and so is a raw format of any kind. A coded format is settled as H.264 or not at all.
pub proof fn law_setting_up_goes_on(config: Config, replies: Seq<Reply>, format: Format)
    requires
        config.size.valid(),
        answers(config, replies),
        !(after(config, replies).stage is Failed),
    ensures
        ({
            let now = after(config, replies);
            let (done, _) = now.step(Reply::Done);
            let (negotiated, action) = now.step(Reply::Negotiated(format));
            &&& replies.len() <= 7 ==> !(done.stage is Failed)
            &&& replies.len() == 8 && format.pixelformat == H264 ==> {
                &&& !(negotiated.stage is Failed)
                &&& negotiated.coded_format == Some(format)
            }
            &&& replies.len() == 8 && format.pixelformat != H264 ==> action == Action::Fail(
                Error::EncoderFormat { pixelformat: format.pixelformat },
            )
            &&& replies.len() == 9 ==> {
                &&& !(negotiated.stage is Failed)
                &&& negotiated.raw_format == Some(format)
                &&& negotiated.coded_format == now.coded_format
            }
            &&& replies.len() == 10 ==> match layout(&now.raw_format->0, config.size) {
                Ok(planes) => !(done.stage is Failed) && done.planes == Some(planes),
                Err(err) => now.step(Reply::Done).1 == Action::Fail(err),
            }
        }),
{
    lemma_one_reply_a_stage(config, replies);
}

/// The parameter sets repeat exactly when the driver took either of the two controls for
/// it.
pub proof fn law_when_parameter_sets_repeat(config: Config, replies: Seq<Reply>)
    requires
        config.size.valid(),
        answers(config, replies),
        replies.len() >= 8,
        !(after(config, replies).stage is Failed),
    ensures
        after(config, replies).repeats == (replies[6] is Done || replies[7] is Done),
    decreases replies.len(),
{
    let earlier = replies.drop_last();
    lemma_one_reply_a_stage(config, replies);
    lemma_one_reply_a_stage(config, earlier);
    if replies.len() > 8 {
        law_when_parameter_sets_repeat(config, earlier);
        assert(earlier[6] == replies[6] && earlier[7] == replies[7]);
    } else {
        assert(answers(config, earlier) && !(after(config, earlier).stage is Failed));
        lemma_one_reply_a_stage(config, earlier.drop_last());
        assert(earlier.last() == replies[6]);
        assert(replies.last() == replies[7]);
    }
}

/// Buffers are mapped whole for the raw queue, then asked for and mapped for the coded
/// one, and then the encoder is ready. A driver that grants none is given up on.
pub proof fn law_how_buffers_are_set_up(opening: OpeningView, granted: u32)
    ensures
        opening.stage is RequestRaw ==> {
            let (next, action) = opening.step(Reply::Granted(granted));
            &&& granted == 0 ==> action == Action::Fail(Error::NoBuffers)
            &&& granted > 0 ==> {
                &&& next.stage is MapRaw
                &&& action == (Action::Allocate {
                    dir: Dir::Output,
                    step: AllocStep::Query { index: 0 },
                })
                &&& next.allocation matches Some(allocation)
                &&& allocation.dir == Dir::Output
                &&& allocation.format == opening.raw_format->0
                &&& allocation.count == granted
                &&& allocation.done.len() == 0
            }
        },
        opening.stage is RequestCoded ==> {
            let (next, action) = opening.step(Reply::Granted(granted));
            &&& opening.asks() == (Action::RequestBuffers { dir: Dir::Capture, count: 8 })
            &&& granted == 0 ==> action == Action::Fail(Error::NoBuffers)
            &&& granted > 0 ==> {
                &&& next.stage is MapCoded
                &&& action == (Action::Allocate {
                    dir: Dir::Capture,
                    step: AllocStep::Query { index: 0 },
                })
                &&& next.allocation matches Some(allocation)
                &&& allocation.dir == Dir::Capture
                &&& allocation.format == opening.coded_format->0
                &&& allocation.count == granted
                &&& allocation.done.len() == 0
            }
        },
        opening.stage is MapRaw && opening.step(Reply::Done).0.stage != Stage::MapRaw ==> {
            &&& opening.step(Reply::Done).0.stage is RequestCoded
            &&& opening.step(Reply::Done).1 is RequestBuffers
        },
        opening.stage is MapCoded && opening.step(Reply::Done).0.stage != Stage::MapCoded ==> {
            &&& opening.step(Reply::Done).0.stage is Ready
            &&& opening.step(Reply::Done).1 is Ready
        },
{
}

/// Whether a queue is all there, ours to fill, and not streaming.
pub open spec fn untouched(queue: QueueView) -> bool {
    &&& queue.free.len() == queue.lengths.len()
    &&& forall|i: int| 0 <= i < queue.free.len() ==> (#[trigger] queue.free[i]) == i
    &&& !queue.streaming
}

/// An encoder that is ready has the two queues the driver negotiated, in the formats it
/// answered with, laid out for the picture size asked for. Every buffer of them is ours,
/// and neither is streaming.
pub proof fn law_a_ready_encoder_is_what_was_negotiated(config: Config, replies: Seq<Reply>)
    requires
        config.size.valid(),
        answers(config, replies),
        after(config, replies).stage is Ready,
    ensures
        ({
            let ready = after(config, replies);
            &&& replies.len() > 11
            &&& ready.config == config
            &&& ready.raw matches Some(raw)
            &&& ready.coded matches Some(coded)
            &&& ready.planes matches Some(planes)
            &&& replies[8] matches Reply::Negotiated(h264)
            &&& replies[9] matches Reply::Negotiated(picture)
            &&& coded.format == h264
            &&& coded.dir == Dir::Capture
            &&& h264.pixelformat == H264
            &&& raw.format == picture
            &&& raw.dir == Dir::Output
            &&& layout(&picture, config.size) == Ok::<_, Error>(planes)
            &&& untouched(raw)
            &&& untouched(coded)
        }),
{
    lemma_negotiated(config, replies);
}

/// What has been negotiated of an encoder on its way.
spec fn negotiated(opening: OpeningView, replies: Seq<Reply>) -> bool {
    let rank = opening.rank();
    &&& 9 <= rank <= 15 ==> replies.len() > 8 && replies[8] is Negotiated
        && replies[8]->Negotiated_0.pixelformat == H264
    &&& 10 <= rank <= 15 ==> replies.len() > 9 && replies[9] is Negotiated
    &&& 9 <= rank <= 13 ==> opening.coded_format == Some(replies[8]->Negotiated_0)
    &&& 10 <= rank <= 11 ==> opening.raw_format == Some(replies[9]->Negotiated_0)
    &&& 11 <= rank <= 15 ==> {
        &&& opening.planes matches Some(planes)
        &&& layout(&replies[9]->Negotiated_0, opening.config.size) == Ok::<_, Error>(planes)
    }
    &&& rank == 12 ==> {
        &&& opening.allocation matches Some(allocation)
        &&& allocation.format == replies[9]->Negotiated_0
        &&& allocation.dir == Dir::Output
    }
    &&& rank == 14 ==> {
        &&& opening.allocation matches Some(allocation)
        &&& allocation.format == replies[8]->Negotiated_0
        &&& allocation.dir == Dir::Capture
    }
    &&& 13 <= rank <= 15 ==> {
        &&& opening.raw matches Some(raw)
        &&& raw.format == replies[9]->Negotiated_0
        &&& raw.dir == Dir::Output
        &&& untouched(raw)
    }
    &&& rank == 15 ==> {
        &&& opening.coded matches Some(coded)
        &&& coded.format == replies[8]->Negotiated_0
        &&& coded.dir == Dir::Capture
        &&& untouched(coded)
    }
}

#[verifier::spinoff_prover]
#[verifier::rlimit(40)]
proof fn lemma_negotiated(config: Config, replies: Seq<Reply>)
    requires
        config.size.valid(),
        answers(config, replies),
        !(after(config, replies).stage is Failed),
    ensures
        negotiated(after(config, replies), replies),
        after(config, replies).config == config,
        after(config, replies).rank() == 15 ==> replies.len() > 11,
    decreases replies.len(),
{
    lemma_one_reply_a_stage(config, replies);
    if replies.len() > 0 {
        let earlier = replies.drop_last();
        lemma_progress(config, replies, earlier.len() as int);
        assert(replies.take(earlier.len() as int) =~= earlier);
        lemma_negotiated(config, earlier);
        lemma_one_reply_a_stage(config, earlier);
        assert(replies.len() > 8 ==> replies.last() == replies[replies.len() - 1]);
        assert(earlier.len() > 8 ==> earlier[8] == replies[8]);
        assert(earlier.len() > 9 ==> earlier[9] == replies[9]);
    }
}

/// An encoder being set up takes every answer to what it asked.
pub proof fn law_every_answer_is_taken(opening: OpeningView, format: Format, granted: u32)
    ensures
        !(opening.stage is Ready) && !(opening.stage is Failed) ==> opening.expects(Reply::Refused),
        opening.stage is Profile || opening.stage is Level || opening.stage is Gop || opening.stage
            is Bitrate || opening.stage is BitrateMode || opening.stage is HeaderMode
            || opening.stage is Repeat || opening.stage is Prepend || opening.stage is Framerate
            ==> opening.expects(Reply::Done),
        opening.stage is CodedFormat && 1 <= format.planes@.len() <= 3 ==> opening.expects(
            Reply::Negotiated(format),
        ),
        opening.stage is RawFormat && 1 <= format.planes@.len() <= 3 && format.countable(
            opening.config.size,
        ) ==> opening.expects(Reply::Negotiated(format)),
        opening.stage is RequestRaw || opening.stage is RequestCoded ==> opening.expects(
            Reply::Granted(granted),
        ),
        opening.stage is MapRaw || opening.stage is MapCoded ==> {
            &&& opening.allocation->0.next() is Query ==> opening.expects(Reply::Done)
            &&& opening.allocation->0.next() is MapPlane ==> opening.expects(Reply::Mapped(granted))
        },
{
}

/// An encoder being set up takes nothing but an answer to what it asked, and nothing once
/// it is ready or has failed.
pub proof fn law_only_an_answer_is_taken(opening: OpeningView, reply: Reply)
    requires
        opening.expects(reply),
    ensures
        !(opening.stage is Ready) && !(opening.stage is Failed),
        match reply {
            Reply::Refused => true,
            Reply::Done => {
                &&& !(opening.stage is CodedFormat) && !(opening.stage is RawFormat)
                &&& !(opening.stage is RequestRaw) && !(opening.stage is RequestCoded)
            },
            Reply::Negotiated(format) => {
                &&& opening.stage is CodedFormat || opening.stage is RawFormat
                &&& 1 <= format.planes@.len() <= 3
            },
            Reply::Granted(_) => opening.stage is RequestRaw || opening.stage is RequestCoded,
            Reply::Mapped(_) => opening.stage is MapRaw || opening.stage is MapCoded,
        },
{
}

} // verus!

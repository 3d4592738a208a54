//! What each failure says.

use vstd::prelude::*;
use vstd::string::*;

use crate::error::Error;
use crate::frame::Size;
use crate::text::{decimal, push_decimal, push_signed, signed};
use crate::v4l2::fourcc::{letters, lossy_text, name};

verus! {

/// The spelling of a picture size.
pub open spec fn dimensions(size: Size) -> Seq<char> {
    decimal(size.width as nat) + "x"@ + decimal(size.height as nat)
}

/// The spelling of a fourcc.
pub open spec fn spelling(code: u32) -> Seq<char> {
    lossy_text(letters(code))
}

/// How `std::time::Duration` prints a span of so many nanoseconds.
pub uninterp spec fn printed_span(nanos: u64) -> Seq<char>;

/// The `Debug` text of the `std::time::Duration` of so many nanoseconds. Which
/// unit and how many digits it picks is left to it.
#[verifier::external_body]
fn print_span(nanos: u64) -> (text: String)
    ensures
        text@ == printed_span(nanos),
{
    format!("{:?}", std::time::Duration::from_nanos(nanos))
}

fn push_size(out: &mut String, size: Size)
    ensures
        final(out)@ == old(out)@ + dimensions(size),
{
    push_decimal(out, size.width as u64);
    out.append("x");
    push_decimal(out, size.height as u64);
    assert(out@ =~= old(out)@ + dimensions(size));
}

fn push_name(out: &mut String, code: u32)
    ensures
        final(out)@ == old(out)@ + spelling(code),
{
    out.append(name(code).as_str());
}

impl Error {
    /// What the failure says.
    pub open spec fn text(&self) -> Seq<char> {
        match self {
            Error::InvalidSize { size } => "a 4:2:0 picture cannot be "@ + dimensions(*size),
            Error::InvalidLength { len, size } => decimal(*len as nat) + " bytes are not a "@
                + dimensions(*size) + " picture"@,
            Error::Negotiated { coded, size } => "V4L2 negotiated "@ + dimensions(*coded) + " for a "@
                + dimensions(*size) + " picture"@,
            Error::UnsupportedRaw { pixelformat } => "V4L2 chose the unsupported raw format "@
                + spelling(*pixelformat),
            Error::NoPlanes => "V4L2 reported a format with no planes"@,
            Error::MissingPlanes { pixelformat, planes } => "V4L2 chose planar "@ + spelling(
                *pixelformat,
            ) + " with "@ + decimal(*planes as nat) + " planes"@,
            Error::Short { len, needed } => "V4L2 buffer of "@ + decimal(*len as nat)
                + " bytes is too small for the "@ + decimal(*needed as nat)
                + " its format implies"@,
            Error::NoBuffers => "REQBUFS: out of memory"@,
            Error::NotM2m => "not an M2M device"@,
            Error::SinglePlanar => "single-planar M2M only"@,
            Error::Unsuitable { what } => what@,
            Error::NoDevice { what } => what@,
            Error::Refused => "the device refused"@,
            Error::FrameSize { opened, given } => "V4L2 encoder opened for "@ + dimensions(*opened)
                + " was given a "@ + dimensions(*given) + " frame"@,
            Error::EncoderStalled => "V4L2 encoder held every input buffer for 500ms"@,
            Error::DrainStalled { frames } =>
                "V4L2 encoder did not finish its drain within 500ms, holding "@ + decimal(
                *frames as nat,
            ) + " frame(s)"@,
            Error::FramesHeld { frames } => "V4L2 encoder held "@ + decimal(*frames as nat)
                + " frame(s) for 500ms without encoding them"@,
            Error::EncoderFormat { pixelformat } => "V4L2 encoder answered an H264 request with "@
                + spelling(*pixelformat),
            Error::DecoderFormat { pixelformat } => "V4L2 decoder answered an H264 request with "@
                + spelling(*pixelformat),
            Error::DecoderStalled => "V4L2 decoder held every input buffer for 500ms"@,
            Error::Oversized { len, capacity } => "access unit of "@ + decimal(*len as nat)
                + " bytes exceeds the V4L2 decoder's "@ + decimal(*capacity as nat)
                + " byte buffer"@,
            Error::SizeUnknown { waited } =>
                "V4L2 decoder did not report the stream's size within "@ + printed_span(*waited),
            Error::NoRawFormat { pixelformat } => "V4L2 decoder defaults to "@ + spelling(
                *pixelformat,
            ) + " and offers no 8-bit 4:2:0 format for this stream"@,
            Error::H264Only => "v4l2 decodes H.264 only"@,
            Error::InputStarved => "MediaCodec never freed an input buffer for an access unit"@,
            Error::InputTooSmall { capacity, len } => "MediaCodec input buffer is "@ + decimal(
                *capacity as nat,
            ) + " bytes, needs "@ + decimal(*len as nat) + " for this access unit"@,
            Error::NotAPicture { width, height } => "MediaCodec produced a "@ + signed(
                *width as int,
            ) + "x"@ + signed(*height as int) + " image, which is not a picture"@,
            Error::SourceUnavailable { what } => what@,
            Error::PermissionDenied { what } => what@,
            Error::PipeWire { what, cause } => what@ + ": "@ + cause@,
            Error::ScanStalled => "PipeWire did not list its objects within 5s"@,
            Error::Render { what } => what@,
            Error::BitrateUnsupported => "v4l2 does not take a new bitrate"@,
            Error::TimestampRange { micros } => "a time of "@ + decimal(*micros as nat)
                + " microseconds is too far out to send"@,
        }
    }

    /// What the failure says.
    pub fn message(&self) -> (text: String)
        ensures
            text@ == self.text(),
    {
        match self {
            Error::InvalidSize { size } => {
                let mut out = "a 4:2:0 picture cannot be ".to_owned();
                push_size(&mut out, *size);
                out
            },
            Error::InvalidLength { len, size } => {
                let mut out = String::new();
                push_decimal(&mut out, *len as u64);
                assert(out@ =~= decimal(*len as nat));
                out.append(" bytes are not a ");
                push_size(&mut out, *size);
                out.append(" picture");
                out
            },
            Error::Negotiated { coded, size } => {
                let mut out = "V4L2 negotiated ".to_owned();
                push_size(&mut out, *coded);
                out.append(" for a ");
                push_size(&mut out, *size);
                out.append(" picture");
                out
            },
            Error::UnsupportedRaw { pixelformat } => {
                let mut out = "V4L2 chose the unsupported raw format ".to_owned();
                push_name(&mut out, *pixelformat);
                out
            },
            Error::NoPlanes => "V4L2 reported a format with no planes".to_owned(),
            Error::MissingPlanes { pixelformat, planes } => {
                let mut out = "V4L2 chose planar ".to_owned();
                push_name(&mut out, *pixelformat);
                out.append(" with ");
                push_decimal(&mut out, *planes as u64);
                out.append(" planes");
                out
            },
            Error::Short { len, needed } => {
                let mut out = "V4L2 buffer of ".to_owned();
                push_decimal(&mut out, *len as u64);
                out.append(" bytes is too small for the ");
                push_decimal(&mut out, *needed as u64);
                out.append(" its format implies");
                out
            },
            Error::NoBuffers => "REQBUFS: out of memory".to_owned(),
            Error::NotM2m => "not an M2M device".to_owned(),
            Error::SinglePlanar => "single-planar M2M only".to_owned(),
            Error::Unsuitable { what } | Error::NoDevice { what } => what.clone(),
            Error::Refused => "the device refused".to_owned(),
            Error::FrameSize { opened, given } => {
                let mut out = "V4L2 encoder opened for ".to_owned();
                push_size(&mut out, *opened);
                out.append(" was given a ");
                push_size(&mut out, *given);
                out.append(" frame");
                out
            },
            Error::EncoderStalled => "V4L2 encoder held every input buffer for 500ms".to_owned(),
            Error::DrainStalled { frames } => {
                let mut out =
                    "V4L2 encoder did not finish its drain within 500ms, holding ".to_owned();
                push_decimal(&mut out, *frames as u64);
                out.append(" frame(s)");
                out
            },
            Error::FramesHeld { frames } => {
                let mut out = "V4L2 encoder held ".to_owned();
                push_decimal(&mut out, *frames as u64);
                out.append(" frame(s) for 500ms without encoding them");
                out
            },
            Error::EncoderFormat { pixelformat } => {
                let mut out = "V4L2 encoder answered an H264 request with ".to_owned();
                push_name(&mut out, *pixelformat);
                out
            },
            Error::DecoderFormat { pixelformat } => {
                let mut out = "V4L2 decoder answered an H264 request with ".to_owned();
                push_name(&mut out, *pixelformat);
                out
            },
            Error::DecoderStalled => "V4L2 decoder held every input buffer for 500ms".to_owned(),
            Error::Oversized { len, capacity } => {
                let mut out = "access unit of ".to_owned();
                push_decimal(&mut out, *len as u64);
                out.append(" bytes exceeds the V4L2 decoder's ");
                push_decimal(&mut out, *capacity as u64);
                out.append(" byte buffer");
                out
            },
            Error::SizeUnknown { waited } => {
                let mut out = "V4L2 decoder did not report the stream's size within ".to_owned();
                out.append(print_span(*waited).as_str());
                out
            },
            Error::NoRawFormat { pixelformat } => {
                let mut out = "V4L2 decoder defaults to ".to_owned();
                push_name(&mut out, *pixelformat);
                out.append(" and offers no 8-bit 4:2:0 format for this stream");
                out
            },
            Error::H264Only => "v4l2 decodes H.264 only".to_owned(),
            Error::InputStarved =>
                "MediaCodec never freed an input buffer for an access unit".to_owned(),
            Error::InputTooSmall { capacity, len } => {
                let mut out = "MediaCodec input buffer is ".to_owned();
                push_decimal(&mut out, *capacity as u64);
                out.append(" bytes, needs ");
                push_decimal(&mut out, *len as u64);
                out.append(" for this access unit");
                out
            },
            Error::NotAPicture { width, height } => {
                let mut out = "MediaCodec produced a ".to_owned();
                push_signed(&mut out, *width);
                out.append("x");
                push_signed(&mut out, *height);
                out.append(" image, which is not a picture");
                out
            },
            Error::SourceUnavailable { what }
            | Error::PermissionDenied { what }
            | Error::Render { what } => what.clone(),
            Error::PipeWire { what, cause } => {
                let mut out = (*what).to_owned();
                out.append(": ");
                out.append(cause.as_str());
                out
            },
            Error::ScanStalled => "PipeWire did not list its objects within 5s".to_owned(),
            Error::BitrateUnsupported => "v4l2 does not take a new bitrate".to_owned(),
            Error::TimestampRange { micros } => {
                let mut out = "a time of ".to_owned();
                push_decimal(&mut out, *micros);
                out.append(" microseconds is too far out to send");
                out
            },
        }
    }
}

/// Whether a text has a part somewhere in it.
pub open spec fn says(text: Seq<char>, part: Seq<char>) -> bool {
    exists|at: int| says_at(text, part, at)
}

/// Whether a text has a part at a place.
pub open spec fn says_at(text: Seq<char>, part: Seq<char>, at: int) -> bool {
    &&& 0 <= at
    &&& at + part.len() <= text.len()
    &&& text.subrange(at, at + part.len()) == part
}

/// A text that is put together from parts has each of them in it.
pub proof fn lemma_says(before: Seq<char>, part: Seq<char>, after: Seq<char>)
    ensures
        says(before + part + after, part),
        says(before + part, part),
        says(part + after, part),
{
    let at = before.len() as int;
    assert((before + part + after).subrange(at, at + part.len()) =~= part);
    assert((before + part).subrange(at, at + part.len()) =~= part);
    assert((part + after).subrange(0, part.len() as int) =~= part);
    assert(says_at(before + part + after, part, at));
    assert(says_at(before + part, part, at));
    assert(says_at(part + after, part, 0));
}

/// A text that has a part in it still does with more before or behind it.
pub proof fn lemma_says_more(text: Seq<char>, part: Seq<char>, more: Seq<char>)
    requires
        says(text, part),
    ensures
        says(text + more, part),
        says(more + text, part),
{
    let at = choose|at: int| says_at(text, part, at);
    let later = more.len() + at;
    assert((text + more).subrange(at, at + part.len()) =~= text.subrange(at, at + part.len()));
    assert((more + text).subrange(later, later + part.len()) =~= text.subrange(
        at,
        at + part.len(),
    ));
    assert(says_at(text + more, part, at));
    assert(says_at(more + text, part, later));
}

/// A failure that is about a size, a length, a count, a format or a time says which: its
/// text has the number or the name in it.
pub proof fn law_a_failure_says_what_it_is_about(err: &Error)
    ensures
        match err {
            Error::InvalidSize { size } => says(err.text(), dimensions(*size)),
            Error::InvalidLength { len, size } => {
                &&& says(err.text(), decimal(*len as nat))
                &&& says(err.text(), dimensions(*size))
            },
            Error::Negotiated { coded, size } => {
                &&& says(err.text(), dimensions(*coded))
                &&& says(err.text(), dimensions(*size))
            },
            Error::FrameSize { opened, given } => {
                &&& says(err.text(), dimensions(*opened))
                &&& says(err.text(), dimensions(*given))
            },
            Error::Short { len, needed } => {
                &&& says(err.text(), decimal(*len as nat))
                &&& says(err.text(), decimal(*needed as nat))
            },
            Error::Oversized { len, capacity } => {
                &&& says(err.text(), decimal(*len as nat))
                &&& says(err.text(), decimal(*capacity as nat))
            },
            Error::InputTooSmall { capacity, len } => {
                &&& says(err.text(), decimal(*len as nat))
                &&& says(err.text(), decimal(*capacity as nat))
            },
            Error::UnsupportedRaw { pixelformat }
            | Error::EncoderFormat { pixelformat }
            | Error::DecoderFormat { pixelformat }
            | Error::NoRawFormat { pixelformat } => says(err.text(), spelling(*pixelformat)),
            Error::MissingPlanes { pixelformat, planes } => {
                &&& says(err.text(), spelling(*pixelformat))
                &&& says(err.text(), decimal(*planes as nat))
            },
            Error::DrainStalled { frames } | Error::FramesHeld { frames } => says(
                err.text(),
                decimal(*frames as nat),
            ),
            Error::NotAPicture { width, height } => {
                &&& says(err.text(), signed(*width as int))
                &&& says(err.text(), signed(*height as int))
            },
            Error::TimestampRange { micros } => says(err.text(), decimal(*micros as nat)),
            Error::SizeUnknown { waited } => says(err.text(), printed_span(*waited)),
            Error::PipeWire { what, cause } => err.text() == what@ + ": "@ + cause@,
            Error::Unsuitable { what }
            | Error::NoDevice { what }
            | Error::SourceUnavailable { what }
            | Error::PermissionDenied { what }
            | Error::Render { what } => err.text() == what@,
            _ => true,
        },
{
    match err {
        Error::InvalidSize { size } => {
            lemma_says("a 4:2:0 picture cannot be "@, dimensions(*size), Seq::empty());
        },
        Error::InvalidLength { len, size } => {
            let (a, b) = (decimal(*len as nat), dimensions(*size));
            let (m, e) = (" bytes are not a "@, " picture"@);
            lemma_says(a + m, b, e);
            lemma_says(Seq::empty(), a, m + b + e);
            assert(a + (m + b + e) =~= a + m + b + e);
        },
        Error::Negotiated { coded, size } => {
            lemma_says_two(
                "V4L2 negotiated "@,
                dimensions(*coded),
                " for a "@,
                dimensions(*size),
                " picture"@,
            );
        },
        Error::FrameSize { opened, given } => {
            lemma_says_two(
                "V4L2 encoder opened for "@,
                dimensions(*opened),
                " was given a "@,
                dimensions(*given),
                " frame"@,
            );
        },
        Error::Short { len, needed } => {
            lemma_says_two(
                "V4L2 buffer of "@,
                decimal(*len as nat),
                " bytes is too small for the "@,
                decimal(*needed as nat),
                " its format implies"@,
            );
        },
        Error::Oversized { len, capacity } => {
            lemma_says_two(
                "access unit of "@,
                decimal(*len as nat),
                " bytes exceeds the V4L2 decoder's "@,
                decimal(*capacity as nat),
                " byte buffer"@,
            );
        },
        Error::InputTooSmall { capacity, len } => {
            lemma_says_two(
                "MediaCodec input buffer is "@,
                decimal(*capacity as nat),
                " bytes, needs "@,
                decimal(*len as nat),
                " for this access unit"@,
            );
        },
        Error::UnsupportedRaw { pixelformat } => {
            lemma_says(
                "V4L2 chose the unsupported raw format "@,
                spelling(*pixelformat),
                Seq::empty(),
            );
        },
        Error::EncoderFormat { pixelformat } => {
            lemma_says(
                "V4L2 encoder answered an H264 request with "@,
                spelling(*pixelformat),
                Seq::empty(),
            );
        },
        Error::DecoderFormat { pixelformat } => {
            lemma_says(
                "V4L2 decoder answered an H264 request with "@,
                spelling(*pixelformat),
                Seq::empty(),
            );
        },
        Error::NoRawFormat { pixelformat } => {
            lemma_says(
                "V4L2 decoder defaults to "@,
                spelling(*pixelformat),
                " and offers no 8-bit 4:2:0 format for this stream"@,
            );
        },
        Error::MissingPlanes { pixelformat, planes } => {
            lemma_says_two(
                "V4L2 chose planar "@,
                spelling(*pixelformat),
                " with "@,
                decimal(*planes as nat),
                " planes"@,
            );
        },
        Error::DrainStalled { frames } => {
            lemma_says(
                "V4L2 encoder did not finish its drain within 500ms, holding "@,
                decimal(*frames as nat),
                " frame(s)"@,
            );
        },
        Error::FramesHeld { frames } => {
            lemma_says(
                "V4L2 encoder held "@,
                decimal(*frames as nat),
                " frame(s) for 500ms without encoding them"@,
            );
        },
        Error::NotAPicture { width, height } => {
            lemma_says_two(
                "MediaCodec produced a "@,
                signed(*width as int),
                "x"@,
                signed(*height as int),
                " image, which is not a picture"@,
            );
        },
        Error::TimestampRange { micros } => {
            lemma_says(
                "a time of "@,
                decimal(*micros as nat),
                " microseconds is too far out to send"@,
            );
        },
        Error::SizeUnknown { waited } => {
            lemma_says(
                "V4L2 decoder did not report the stream's size within "@,
                printed_span(*waited),
                Seq::empty(),
            );
        },
        _ => {},
    }
}

proof fn lemma_says_two(
    before: Seq<char>,
    first: Seq<char>,
    between: Seq<char>,
    second: Seq<char>,
    after: Seq<char>,
)
    ensures
        says(before + first + between + second + after, first),
        says(before + first + between + second + after, second),
{
    let text = before + first + between + second + after;
    lemma_says(before, first, between + second + after);
    lemma_says(before + first + between, second, after);
    assert(before + first + (between + second + after) =~= text);
}

/// A size is spelled as its width and its height, in that order.
pub proof fn law_a_size_is_its_width_and_height(size: Size)
    ensures
        ({
            let (width, height) = (decimal(size.width as nat), decimal(size.height as nat));
            let text = dimensions(size);
            &&& text.len() == width.len() + 1 + height.len()
            &&& text.subrange(0, width.len() as int) == width
            &&& text[width.len() as int] == 'x'
            &&& text.subrange(width.len() as int + 1, text.len() as int) == height
        }),
{
    reveal_strlit("x");
    let (width, height) = (decimal(size.width as nat), decimal(size.height as nat));
    let text = dimensions(size);
    assert(text.subrange(0, width.len() as int) =~= width);
    assert(text.subrange(width.len() as int + 1, text.len() as int) =~= height);
}

} // verus!

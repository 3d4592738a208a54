//! Pixel format codes.

use vstd::prelude::*;
use vstd::utf8::{decode_utf8, valid_utf8};

use crate::text::{join, joined, law_parts_are_joined_in_order, texts};

verus! {

/// Semi-planar 4:2:0, luma then interleaved chroma, in one buffer.
pub const NV12: u32 = 0x3231_564e;

/// The same layout with each plane in its own buffer.
pub const NV12M: u32 = 0x3231_4d4e;

/// Planar 4:2:0, luma then U then V, in one buffer.
pub const YUV420: u32 = 0x3231_5559;

/// The same layout with each plane in its own buffer.
pub const YUV420M: u32 = 0x3231_4d59;

/// An H.264 elementary stream, one access unit per buffer.
pub const H264: u32 = 0x3436_3248;

/// The raw formats either backend can read and write, in preference order.
///
/// All four are 8-bit 4:2:0, which converts to and from [`crate::frame::I420`]
/// without resampling. Which one a driver picks is its business: the Raspberry
/// Pi's `bcm2835-codec` answers an NV12 request with `YU12` on some firmware
/// revisions, and [`super::planes::Planes`] handles whichever comes back.
pub const RAW: [u32; 4] = [NV12, NV12M, YUV420, YUV420M];

/// Whether `code` is one of [`RAW`].
pub open spec fn is_raw(code: u32) -> bool {
    code == NV12 || code == NV12M || code == YUV420 || code == YUV420M
}

/// The number four bytes spell, least significant first.
pub open spec fn spelled(code: Seq<u8>) -> int {
    code[0] + 0x100 * code[1] + 0x1_0000 * code[2] + 0x100_0000 * code[3]
}

/// The four bytes of a code, least significant first.
pub open spec fn letters(code: u32) -> Seq<u8> {
    seq![
        (code % 0x100) as u8,
        (code / 0x100 % 0x100) as u8,
        (code / 0x1_0000 % 0x100) as u8,
        (code / 0x100_0000) as u8,
    ]
}

/// A V4L2 fourcc, which is its four ASCII bytes little-endian.
pub fn fourcc(code: [u8; 4]) -> (r: u32)
    ensures
        r == spelled(code@),
{
    code[0] as u32 + 0x100 * code[1] as u32 + 0x1_0000 * code[2] as u32 + 0x100_0000
        * code[3] as u32
}

/// What `String::from_utf8_lossy` makes of some bytes.
pub uninterp spec fn lossy_text(bytes: Seq<u8>) -> Seq<char>;

/// `String::from_utf8_lossy`, owned. Bytes that are UTF-8 come out as the text
/// they encode; how other bytes are replaced is left to it.
#[verifier::external_body]
fn lossy(bytes: &[u8]) -> (text: String)
    ensures
        text@ == lossy_text(bytes@),
        valid_utf8(bytes@) ==> text@ == decode_utf8(bytes@),
{
    String::from_utf8_lossy(bytes).into_owned()
}

/// The ASCII spelling of a fourcc, for logs and errors.
pub fn name(code: u32) -> (text: String)
    ensures
        text@ == lossy_text(letters(code)),
        valid_utf8(letters(code)) ==> text@ == decode_utf8(letters(code)),
{
    let bytes: [u8; 4] = [
        (code % 0x100) as u8,
        (code / 0x100 % 0x100) as u8,
        (code / 0x1_0000 % 0x100) as u8,
        (code / 0x100_0000) as u8,
    ];
    assert(bytes@ =~= letters(code));
    lossy(bytes.as_slice())
}

/// The spellings of several fourccs, with slashes between them.
pub open spec fn spellings(codes: Seq<u32>) -> Seq<char> {
    joined(codes.map_values(|code: u32| lossy_text(letters(code))), "/"@)
}

/// Render fourccs as their ASCII spelling for an error message.
pub fn join_fourcc(codes: &[u32]) -> (text: String)
    ensures
        text@ == spellings(codes@),
{
    let mut names: Vec<String> = Vec::new();
    let mut at: usize = 0;
    while at < codes.len()
        invariant
            at <= codes@.len(),
            names@.len() == at,
            forall|i: int| 0 <= i < at ==> (#[trigger] names@[i])@ == lossy_text(letters(codes@[i])),
        decreases codes@.len() - at,
    {
        names.push(name(codes[at]));
        at = at + 1;
    }
    assert(texts(names@) =~= codes@.map_values(|code: u32| lossy_text(letters(code))));
    join(&names, "/")
}

/// Spelling a code out and reading it back is the same code.
pub proof fn law_a_code_is_its_letters(code: u32)
    ensures
        spelled(letters(code)) == code,
{
}

/// Every list of codes offered by a queue either holds `code` or does not.
pub fn contains(codes: &[u32], code: u32) -> (found: bool)
    ensures
        found == codes@.contains(code),
{
    let mut at: usize = 0;
    while at < codes.len()
        invariant
            at <= codes@.len(),
            forall|i: int| 0 <= i < at ==> codes@[i] != code,
        decreases codes@.len() - at,
    {
        if codes[at] == code {
            return true;
        }
        at = at + 1;
    }
    false
}

/// The first letter of a code is its low byte, and each letter after it the next one up.
/// Every four bytes spell a code, and that code's letters are those bytes.
pub proof fn law_the_first_letter_is_the_low_byte(code: Seq<u8>)
    requires
        code.len() == 4,
    ensures
        0 <= spelled(code) <= u32::MAX,
        spelled(code) % 0x100 == code[0],
        spelled(code) / 0x100 % 0x100 == code[1],
        spelled(code) / 0x1_0000 % 0x100 == code[2],
        spelled(code) / 0x100_0000 == code[3],
        letters(spelled(code) as u32) == code,
{
    assert(letters(spelled(code) as u32) =~= code);
}

/// The raw formats are the four 4:2:0 layouts, and no other code is one.
pub proof fn law_the_raw_formats(code: u32)
    ensures
        is_raw(code) <==> {
            ||| letters(code) == seq![78u8, 86, 49, 50]
            ||| letters(code) == seq![78u8, 77, 49, 50]
            ||| letters(code) == seq![89u8, 85, 49, 50]
            ||| letters(code) == seq![89u8, 77, 49, 50]
        },
{
    let (nv12, nm12) = (seq![78u8, 86, 49, 50], seq![78u8, 77, 49, 50]);
    let (yu12, ym12) = (seq![89u8, 85, 49, 50], seq![89u8, 77, 49, 50]);
    law_a_code_is_its_letters(code);
    assert(letters(NV12) =~= nv12 && letters(NV12M) =~= nm12);
    assert(letters(YUV420) =~= yu12 && letters(YUV420M) =~= ym12);
    assert(spelled(nv12) == NV12 && spelled(nm12) == NV12M);
    assert(spelled(yu12) == YUV420 && spelled(ym12) == YUV420M);
}

/// Codes are spelled one after another in the order they stand, with slashes between them.
pub proof fn law_codes_are_spelled_in_order(codes: Seq<u32>, code: u32)
    ensures
        codes.len() == 0 ==> spellings(codes.push(code)) == lossy_text(letters(code)),
        codes.len() > 0 ==> spellings(codes.push(code)) == spellings(codes) + "/"@ + lossy_text(
            letters(code),
        ),
{
    let spell = |code: u32| lossy_text(letters(code));
    assert(codes.push(code).map_values(spell) =~= codes.map_values(spell).push(spell(code)));
    law_parts_are_joined_in_order(codes.map_values(spell), spell(code), "/"@);
}

} // verus!

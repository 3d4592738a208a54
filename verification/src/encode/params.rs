//! Parameters the driver cannot work out for itself.

use vstd::prelude::*;

use crate::frame::{lemma_area_bound, Size};

verus! {

/// `V4L2_MPEG_VIDEO_H264_LEVEL_1_3`.
pub const LEVEL_1_3: i32 = 4;

/// `V4L2_MPEG_VIDEO_H264_LEVEL_3_0`.
pub const LEVEL_3_0: i32 = 8;

/// `V4L2_MPEG_VIDEO_H264_LEVEL_3_1`.
pub const LEVEL_3_1: i32 = 9;

/// `V4L2_MPEG_VIDEO_H264_LEVEL_4_0`.
pub const LEVEL_4_0: i32 = 11;

/// `V4L2_MPEG_VIDEO_H264_LEVEL_5_1`.
pub const LEVEL_5_1: i32 = 15;

/// The smallest coded buffer to ask for, in bytes.
pub const MIN_CODED: u32 = 262_144;

/// The largest coded buffer to ask for, in bytes.
pub const MAX_CODED: u32 = 4_194_304;

/// How many 16-pixel blocks cover `pixels`.
pub open spec fn blocks(pixels: u32) -> int {
    (pixels as int + 15) / 16
}

impl Size {
    /// How many macroblocks cover the picture.
    pub open spec fn macroblocks(self) -> int {
        blocks(self.width) * blocks(self.height)
    }
}

/// The frame size limit of an H.264 level in macroblocks: `MaxFS` of Table A-1,
/// for the levels this encoder asks for.
pub open spec fn max_frame_size(level: i32) -> int {
    if level == LEVEL_1_3 {
        396
    } else if level == LEVEL_3_0 {
        1620
    } else if level == LEVEL_3_1 {
        3600
    } else if level == LEVEL_4_0 {
        8192
    } else if level == LEVEL_5_1 {
        36864
    } else {
        0
    }
}

/// The lowest of the levels this encoder asks for whose limit clears the
/// picture, and the highest of them for a picture that no level clears.
pub open spec fn level_for(size: Size) -> i32 {
    let needed = size.macroblocks();
    if needed <= max_frame_size(LEVEL_1_3) {
        LEVEL_1_3
    } else if needed <= max_frame_size(LEVEL_3_0) {
        LEVEL_3_0
    } else if needed <= max_frame_size(LEVEL_3_1) {
        LEVEL_3_1
    } else if needed <= max_frame_size(LEVEL_4_0) {
        LEVEL_4_0
    } else {
        LEVEL_5_1
    }
}

fn ceil16(pixels: u32) -> (r: u32)
    ensures
        r == blocks(pixels),
        r <= 0x1000_0000,
{
    if pixels % 16 == 0 {
        pixels / 16
    } else {
        pixels / 16 + 1
    }
}

/// The H.264 level a resolution needs, as the `V4L2_CID_MPEG_VIDEO_H264_LEVEL`
/// menu spells it.
///
/// Chosen on frame size in macroblocks, which is the `MaxFS` column of Table A-1
/// and the constraint that actually bites: bcm2835-codec defaults to level 1.0,
/// whose 396-macroblock limit is 128x96. The other level constraints (bit rate,
/// decoded picture buffer) are looser than what this hardware does anyway.
pub fn h264_level(size: Size) -> (level: i32)
    ensures
        level == level_for(size),
{
    let (across, down) = (ceil16(size.width) as u64, ceil16(size.height) as u64);
    assert(0 <= across * down <= 0x1000_0000 * 0x1000_0000) by (nonlinear_arith)
        requires
            0 <= across <= 0x1000_0000,
            0 <= down <= 0x1000_0000,
    ;
    let macroblocks = across * down;
    if macroblocks <= 396 {
        // 352x288
        LEVEL_1_3
    } else if macroblocks <= 1620 {
        // 720x576
        LEVEL_3_0
    } else if macroblocks <= 3600 {
        // 1280x720
        LEVEL_3_1
    } else if macroblocks <= 8192 {
        // 1920x1088
        LEVEL_4_0
    } else {
        LEVEL_5_1
    }
}

/// The level asked for clears the picture, for every picture that any level the
/// menu names clears.
pub proof fn law_the_level_clears_the_resolution(size: Size)
    requires
        size.macroblocks() <= max_frame_size(LEVEL_5_1),
    ensures
        size.macroblocks() <= max_frame_size(level_for(size)),
{
}

/// How many bytes of coded buffer a picture of this size gets: half a byte per
/// pixel, between the floor and the ceiling.
pub open spec fn coded_bytes_for(size: Size) -> int {
    let half = size.area() / 2;
    if half < MIN_CODED {
        MIN_CODED as int
    } else if half > MAX_CODED {
        MAX_CODED as int
    } else {
        half
    }
}

/// How large a coded buffer to ask for, since the driver cannot size an access
/// unit from the picture dimensions.
///
/// Half a raw frame is well clear of what a keyframe costs at any sane quality,
/// and the floor keeps a small picture's buffer larger than its own first
/// keyframe.
pub fn coded_size(size: Size) -> (bytes: u32)
    ensures
        bytes == coded_bytes_for(size),
{
    proof {
        lemma_area_bound(size);
    }
    let pixels = size.pixels();
    let half = if pixels < u32::MAX as u64 {
        pixels as u32 / 2
    } else {
        u32::MAX / 2
    };
    if half < MIN_CODED {
        MIN_CODED
    } else if half > MAX_CODED {
        MAX_CODED
    } else {
        half
    }
}

/// The value to set `V4L2_CID_MPEG_VIDEO_BITRATE` to, which is a signed control.
pub fn bitrate_control(bitrate: u64) -> (value: i32)
    ensures
        value == if bitrate < i32::MAX {
            bitrate as int
        } else {
            i32::MAX as int
        },
{
    if bitrate < i32::MAX as u64 {
        bitrate as i32
    } else {
        i32::MAX
    }
}

} // verus!

use moq_video::error::Error;
use moq_video::frame::{Color, Size, I420};
use moq_video::v4l2::copy::{interleave, scatter};
use moq_video::v4l2::format::{read_format, Format, PixFormat, Plane, Request};
use moq_video::v4l2::fourcc::{fourcc, join_fourcc, name, H264, NV12, NV12M, RAW, YUV420, YUV420M};
use moq_video::v4l2::picture::{Buffer, Mapping};
use moq_video::v4l2::planes::{padded_rows, Component, Planes};

/// A single-buffer format the way a driver reports one.
fn format(pixelformat: u32, size: Size, stride: u32, rows: u32) -> Format {
    Format {
        pixelformat,
        size,
        planes: vec![Plane {
            stride,
            sizeimage: stride * rows * 3 / 2,
        }],
    }
}

/// Chroma goes where the padded row count puts it, not where the visible height
/// would.
#[test]
fn chroma_follows_the_padded_height() {
    // 640x360 padded to a 640-byte stride and 368 rows, which is what a
    // 16-row-aligned driver reports.
    let planes = Planes::new(&format(NV12, Size::new(640, 368), 640, 368), Size::new(640, 360)).unwrap();
    assert_eq!(planes.u.offset, 640 * 368);
    assert!(planes.v.is_none());
}

/// A driver that pads the stride but not the height still has to be believed
/// about the stride.
#[test]
fn chroma_follows_the_padded_stride() {
    let planes = Planes::new(&format(YUV420, Size::new(360, 240), 384, 240), Size::new(360, 240)).unwrap();
    assert_eq!(planes.y.stride, 384);
    assert_eq!(planes.u.offset, 384 * 240);
    assert_eq!(planes.u.stride, 192);
    let v = planes.v.unwrap();
    assert_eq!(v.offset, 384 * 240 + 192 * 120);
    assert_eq!(v.stride, 192);
}

/// Per-plane formats put each component in its own buffer at offset zero.
#[test]
fn separate_planes_start_at_zero() {
    let format = Format {
        pixelformat: NV12M,
        size: Size::new(320, 240),
        planes: vec![
            Plane {
                stride: 320,
                sizeimage: 320 * 240,
            },
            Plane {
                stride: 320,
                sizeimage: 320 * 120,
            },
        ],
    };
    let planes = Planes::new(&format, Size::new(320, 240)).unwrap();
    assert_eq!(planes.u.plane, 1);
    assert_eq!(planes.u.offset, 0);
}

/// A picture larger than what the driver negotiated would be written past the
/// end of the buffer, so it is refused rather than truncated.
#[test]
fn a_picture_larger_than_the_format_is_refused() {
    let format = format(NV12, Size::new(320, 240), 320, 240);
    assert!(Planes::new(&format, Size::new(640, 480)).is_err());
    assert_eq!(
        Planes::new(&format, Size::new(640, 480)),
        Err(Error::Negotiated {
            coded: Size::new(320, 240),
            size: Size::new(640, 480),
        })
    );
}

/// A driver offering something we cannot lay out says so at open, not on the
/// first frame.
#[test]
fn an_unsupported_raw_format_is_refused() {
    let format = format(fourcc(*b"RGB3"), Size::new(320, 240), 960, 240);
    assert!(Planes::new(&format, Size::new(320, 240)).is_err());
    assert_eq!(
        Planes::new(&format, Size::new(320, 240)),
        Err(Error::UnsupportedRaw {
            pixelformat: fourcc(*b"RGB3"),
        })
    );
}

/// The written picture round-trips: every row lands at the driver's stride and
/// chroma is interleaved in the driver's order.
#[test]
fn writing_respects_the_stride() {
    let width = 4;
    let height = 4;
    let stride = 8;
    let at = Component {
        plane: 0,
        offset: 0,
        stride,
    };

    let mut dst = vec![0u8; stride * height];
    let src: Vec<u8> = (0..(width * height) as u8).collect();
    scatter(&mut dst, at, &src, width, height).unwrap();
    assert_eq!(&dst[..width], &src[..width]);
    assert_eq!(&dst[stride..stride + width], &src[width..width * 2]);
    // The padding between rows is left alone.
    assert_eq!(&dst[width..stride], &[0; 4]);

    let mut chroma = vec![0u8; stride * height];
    interleave(&mut chroma, at, &[1, 2], &[3, 4], 2, 1).unwrap();
    assert_eq!(&chroma[..4], &[1, 3, 2, 4]);
}

/// A buffer smaller than the format implies is an error, not a panic in the
/// middle of a frame.
#[test]
fn a_short_buffer_errors() {
    let at = Component {
        plane: 0,
        offset: 0,
        stride: 8,
    };
    let mut dst = vec![0u8; 8];
    assert!(scatter(&mut dst, at, &[0; 16], 4, 4).is_err());
    assert_eq!(
        scatter(&mut dst, at, &[7; 16], 4, 4),
        Err(Error::Short { len: 8, needed: 12 })
    );
    // The row that did fit is written, and nothing past it.
    assert_eq!(dst, vec![7, 7, 7, 7, 0, 0, 0, 0]);
}

#[test]
fn codes_are_their_letters() {
    assert_eq!(fourcc(*b"NV12"), NV12);
    assert_eq!(fourcc(*b"NM12"), NV12M);
    assert_eq!(fourcc(*b"YU12"), YUV420);
    assert_eq!(fourcc(*b"YM12"), YUV420M);
    assert_eq!(fourcc(*b"H264"), H264);
    assert_eq!(name(NV12), "NV12");
    // Bytes that are not text still print.
    assert_eq!(name(0xff31_564e), "NV1\u{fffd}");
    assert_eq!(join_fourcc(&RAW), "NV12/NM12/YU12/YM12");
    assert_eq!(join_fourcc(&[]), "");
}

#[test]
fn reserved_rows_come_from_the_buffer_size() {
    let plane = |stride, sizeimage| Plane { stride, sizeimage };
    assert_eq!(padded_rows(plane(640, 640 * 368 * 3 / 2), 360), 368);
    // No stride, no padding.
    assert_eq!(padded_rows(plane(0, 12345), 360), 360);
    // A buffer size too small to be believed never puts chroma inside the picture.
    assert_eq!(padded_rows(plane(640, 10), 360), 360);
}

#[test]
fn layouts_the_driver_got_wrong_are_refused() {
    let size = Size::new(320, 240);
    let plane = Plane {
        stride: 320,
        sizeimage: 320 * 240,
    };
    let with = |pixelformat, planes| Format {
        pixelformat,
        size,
        planes,
    };
    assert_eq!(Planes::new(&with(NV12, vec![]), size), Err(Error::NoPlanes));
    assert_eq!(
        Planes::new(&with(YUV420M, vec![plane, plane]), size),
        Err(Error::MissingPlanes {
            pixelformat: YUV420M,
            planes: 2,
        })
    );
    let odd = Size::new(319, 240);
    assert_eq!(
        Planes::new(&with(NV12, vec![plane]), odd),
        Err(Error::InvalidSize { size: odd })
    );
    // A driver may answer a contiguous request with separate planes.
    let planes = Planes::new(&with(YUV420, vec![plane, plane, plane]), size).unwrap();
    assert_eq!(planes.u.plane, 1);
    assert_eq!(planes.v.unwrap().plane, 2);
    assert_eq!(planes.v.unwrap().stride, 320);
}

fn picture(width: u32, height: u32) -> I420 {
    let len = (width * height * 3 / 2) as usize;
    I420::new(width, height, (0..len).map(|i| (i % 251 + 1) as u8).collect()).unwrap()
}

/// Write a picture into zeroed memory and read it back out.
fn round_trip(planes: &Planes, lens: &[usize], frame: &I420) -> (Vec<Vec<u8>>, Vec<u8>) {
    let mut memory: Vec<Vec<u8>> = lens.iter().map(|len| vec![0u8; *len]).collect();
    let data = {
        let mut buffer = Buffer::new(memory.iter_mut().map(|plane| Mapping::new(plane)).collect());
        assert_eq!(buffer.count(), lens.len());
        planes.write(&mut buffer, frame).unwrap();
        planes.read(&buffer).unwrap().data().to_vec()
    };
    (memory, data)
}

#[test]
fn a_written_picture_reads_back() {
    let frame = picture(6, 4);
    // One buffer, padded in both directions, interleaved and planar.
    for pixelformat in [NV12, YUV420] {
        let planes = Planes::new(&format(pixelformat, Size::new(8, 6), 8, 8), Size::new(6, 4)).unwrap();
        let (memory, data) = round_trip(&planes, &[8 * 8 * 3 / 2], &frame);
        assert_eq!(data, frame.data());
        // Everything outside the picture is untouched: count what was written.
        let written = memory[0].iter().filter(|byte| **byte != 0).count();
        assert_eq!(written, 6 * 4 * 3 / 2);
    }
    // Separate buffers.
    let plane = |stride, sizeimage| Plane { stride, sizeimage };
    let separate = Format {
        pixelformat: YUV420M,
        size: Size::new(8, 4),
        planes: vec![plane(8, 32), plane(4, 8), plane(5, 10)],
    };
    let planes = Planes::new(&separate, Size::new(6, 4)).unwrap();
    let (memory, data) = round_trip(&planes, &[32, 8, 10], &frame);
    assert_eq!(data, frame.data());
    assert_eq!(&memory[0][..6], &frame.y()[..6]);
    assert_eq!(&memory[2][5..8], &frame.v()[3..6]);
    let separate = Format {
        pixelformat: NV12M,
        size: Size::new(8, 4),
        planes: vec![plane(8, 32), plane(8, 16)],
    };
    let planes = Planes::new(&separate, Size::new(6, 4)).unwrap();
    let (memory, data) = round_trip(&planes, &[32, 16], &frame);
    assert_eq!(data, frame.data());
    assert_eq!(memory[1][0], frame.u()[0]);
    assert_eq!(memory[1][1], frame.v()[0]);
}

#[test]
fn a_buffer_without_room_for_chroma_errors() {
    let frame = picture(6, 4);
    let planes = Planes::new(&format(NV12, Size::new(8, 4), 8, 4), Size::new(6, 4)).unwrap();
    let mut memory = vec![0u8; 40];
    let mut buffer = Buffer::new(vec![Mapping::new(&mut memory)]);
    assert_eq!(planes.write(&mut buffer, &frame), Err(Error::Short { len: 40, needed: 46 }));
    assert_eq!(planes.read(&buffer).unwrap_err(), Error::Short { len: 40, needed: 46 });
    // The plane still holds what did fit.
    assert_eq!(buffer.plane(0)[0], frame.y()[0]);
    buffer.plane_mut(0)[0] = 9;
    assert_eq!(buffer.plane(0)[0], 9);
}

#[test]
fn pictures_are_the_length_their_size_calls_for() {
    assert_eq!(picture(4, 2).size(), Size::new(4, 2));
    assert_eq!(
        I420::new(4, 2, vec![0; 11]).unwrap_err(),
        Error::InvalidLength {
            len: 11,
            size: Size::new(4, 2),
        }
    );
    assert_eq!(
        I420::new(4, 0, vec![]).unwrap_err(),
        Error::InvalidSize { size: Size::new(4, 0) }
    );
    let frame = I420::new(2, 2, vec![1, 2, 3, 4, 5, 6]).unwrap();
    assert_eq!(frame.y(), &[1, 2, 3, 4]);
    assert_eq!(frame.u(), &[5]);
    assert_eq!(frame.v(), &[6]);
}

fn pix() -> PixFormat {
    PixFormat {
        width: 1,
        height: 2,
        pixelformat: 3,
        field: 4,
        colorspace: 5,
        plane_fmt: [Plane {
            stride: 6,
            sizeimage: 7,
        }; 8],
        num_planes: 8,
        ycbcr_enc: 9,
        quantization: 10,
        xfer_func: 11,
    }
}

#[test]
fn a_request_is_written_over_the_driver_defaults() {
    let mut at = pix();
    Request {
        pixelformat: H264,
        size: Size::new(640, 480),
        sizeimage: Some(1000),
        color: None,
    }
    .set_format(&mut at);
    assert_eq!((at.width, at.height, at.pixelformat), (640, 480, H264));
    assert_eq!((at.field, at.num_planes), (1, 1));
    assert_eq!((at.plane_fmt[0].stride, at.plane_fmt[0].sizeimage), (6, 1000));
    assert_eq!(at.plane_fmt[1].sizeimage, 7);
    // No color asked for leaves the defaults.
    assert_eq!((at.colorspace, at.ycbcr_enc, at.xfer_func, at.quantization), (5, 9, 11, 10));

    for (color, fields) in [
        (Color::Bt601Limited, (1, 1, 1, 2)),
        (Color::Bt601Full, (1, 1, 1, 1)),
        (Color::Bt709Limited, (3, 2, 1, 2)),
        (Color::Bt709Full, (3, 2, 1, 1)),
    ] {
        let mut at = pix();
        Request {
            pixelformat: NV12,
            size: Size::new(640, 480),
            sizeimage: None,
            color: Some(color),
        }
        .set_format(&mut at);
        assert_eq!(at.plane_fmt[0].sizeimage, 7);
        assert_eq!((at.colorspace, at.ycbcr_enc, at.xfer_func, at.quantization), fields);
    }
}

#[test]
fn the_plane_count_is_bounded() {
    for (reported, believed) in [(0, 1), (1, 1), (2, 2), (3, 3), (8, 3)] {
        let mut at = pix();
        at.num_planes = reported;
        let format = read_format(&at);
        assert_eq!(format.planes.len(), believed);
        assert_eq!(format.size, Size::new(1, 2));
        assert_eq!(format.pixelformat, 3);
        assert_eq!((format.planes[0].stride, format.planes[0].sizeimage), (6, 7));
    }
}

/// Only the picture is ever written, so padding cleared once stays clear.
#[test]
fn padding_stays_clear_from_frame_to_frame() {
    let format = format(NV12, Size::new(8, 4), 8, 6);
    let planes = Planes::new(&format, Size::new(4, 2)).unwrap();
    let mut memory = vec![0u8; 8 * 6 * 3 / 2];
    for value in [3u8, 9] {
        let frame = I420::new(4, 2, vec![value; 12]).unwrap();
        let mut buffer = Buffer::new(vec![Mapping::new(&mut memory)]);
        assert!(planes.reaches(&buffer));
        planes.write(&mut buffer, &frame).unwrap();
    }
    let written: Vec<usize> = (0..memory.len()).filter(|at| memory[*at] != 0).collect();
    assert_eq!(
        written,
        vec![0, 1, 2, 3, 8, 9, 10, 11, 48, 49, 50, 51]
    );
    assert!(written.iter().all(|at| memory[*at] == 9));
}

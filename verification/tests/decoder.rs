use moq_video::decode::open::{self, Opening};
use moq_video::decode::v4l2::{fill, Action, Reply, V4l2};
use moq_video::decode::Codec;
use moq_video::error::Error;
use moq_video::frame::Size;
use moq_video::time::{Duration, Timestamp};
use moq_video::v4l2::format::{Format, Plane};
use moq_video::v4l2::fourcc::{H264, NV12, YUV420, YUV420M};
use moq_video::v4l2::picture::{Buffer, Mapping};
use moq_video::v4l2::queue::{AllocStep, Dequeue, Dequeued, FLAG_ERROR, FLAG_LAST};

fn stream_format(pixelformat: u32, width: u32, height: u32) -> Format {
    Format {
        pixelformat,
        size: Size::new(width, height),
        planes: vec![Plane {
            stride: width,
            sizeimage: width * height * 3 / 2,
        }],
    }
}

fn decoder() -> V4l2 {
    let (mut opening, mut action) = Opening::open(Codec::H264).unwrap();
    loop {
        let reply = match action {
            open::Action::Ready => return opening.finish().unwrap(),
            open::Action::Subscribe | open::Action::StreamCoded => open::Reply::Done,
            open::Action::SetFormat { request } => {
                assert_eq!(request.pixelformat, H264);
                assert_eq!(request.size, Size::new(1920, 1088));
                assert_eq!(request.sizeimage, Some(1024 * 1024));
                open::Reply::Negotiated(stream_format(H264, 1920, 1088))
            }
            open::Action::RequestBuffers { count } => open::Reply::Granted(count),
            open::Action::Allocate {
                step: AllocStep::Query { .. },
            } => open::Reply::Done,
            open::Action::Allocate { .. } => open::Reply::Mapped(64),
            action => panic!("{action:?}"),
        };
        assert!(opening.admits(&reply));
        (opening, action) = opening.step(reply);
    }
}

fn fed(micros: u64) -> Timestamp {
    Timestamp::from_micros(micros).unwrap()
}

#[test]
fn only_h264_is_decoded() {
    for codec in [Codec::H265, Codec::Av1] {
        assert_eq!(Opening::open(codec).unwrap_err(), Error::H264Only);
    }
    let (opening, action) = Opening::open(Codec::H264).unwrap();
    assert_eq!(action, open::Action::Subscribe);
    let (opening, _) = opening.step(open::Reply::Done);
    let (opening, action) =
        opening.step(open::Reply::Negotiated(stream_format(NV12, 640, 480)));
    let open::Action::Fail(err) = action else {
        panic!("{action:?}")
    };
    assert_eq!(
        err.message(),
        "V4L2 decoder answered an H264 request with NV12"
    );
    assert!(!opening.admits(&open::Reply::Done));
    assert!(opening.finish().is_none());
}

#[test]
fn a_decoder_with_no_buffers_is_refused() {
    let (opening, _) = Opening::open(Codec::H264).unwrap();
    let (opening, _) = opening.step(open::Reply::Done);
    let (opening, action) =
        opening.step(open::Reply::Negotiated(stream_format(H264, 640, 480)));
    assert_eq!(action, open::Action::RequestBuffers { count: 4 });
    let (_, action) = opening.step(open::Reply::Granted(0));
    assert_eq!(action, open::Action::Fail(Error::NoBuffers));
}

/// Feed one access unit and stop where the decoder looks for a source change.
fn submit(decoder: &mut V4l2, len: usize, micros: u64, now: u64) {
    assert_eq!(
        decoder.decode(len, fed(micros), now),
        Action::DequeueCoded
    );
    let action = decoder.step(Reply::Coded(Dequeue::Empty), now);
    assert!(matches!(action, Action::Fill { .. }), "{action:?}");
    let action = decoder.step(Reply::Done, now);
    let Action::QueueCoded {
        index,
        len: queued,
        timestamp,
    } = action
    else {
        panic!("{action:?}")
    };
    assert_eq!(queued as usize, len);
    assert_eq!(timestamp, Duration::from_micros(micros));
    let submission = decoder.coded_submission(index, queued, timestamp);
    assert_eq!(submission.planes[0].bytesused, queued);
    assert_eq!(submission.planes[0].length, 64);
    assert_eq!(decoder.step(Reply::Done, now), Action::TakeSourceChange);
}

/// Hand the driver's own format back and go on to where pictures come out.
fn negotiate(decoder: &mut V4l2, format: Format, visible: Option<Size>, now: u64) -> Action {
    let mut action = decoder.step(Reply::Negotiated(format), now);
    loop {
        let reply = match action {
            Action::VisibleSize => Reply::Visible(visible),
            Action::MinimumBuffers => Reply::Minimum(Some(2)),
            Action::RequestBuffers { count } => {
                assert_eq!(count, 5);
                Reply::Granted(count)
            }
            Action::Allocate {
                step: AllocStep::Query { .. },
            } => Reply::Done,
            Action::Allocate { .. } => Reply::Mapped(4096),
            Action::QueuePicture { index } => {
                let submission = decoder.picture_submission(index).unwrap();
                assert_eq!(submission.index, index);
                assert_eq!(submission.planes[0].length, 4096);
                Reply::Done
            }
            Action::StreamPictures => Reply::Done,
            action => return action,
        };
        assert!(decoder.admits(&reply));
        action = decoder.step(reply, now);
    }
}

fn picture_buffer(index: u32, used: u32, micros: u32, flags: u32) -> Dequeue {
    Dequeue::Buffer(Dequeued::new(index, [used, 0, 0], 0, micros, flags))
}

#[test]
fn pictures_come_out_under_their_own_times() {
    let mut decoder = decoder();
    assert_eq!(decoder.name(), "v4l2");
    submit(&mut decoder, 40, 7, 0);
    assert_eq!(decoder.step(Reply::Changed(true), 0), Action::GetFormat);
    let action = negotiate(
        &mut decoder,
        stream_format(YUV420, 16, 16),
        Some(Size::new(4, 2)),
        0,
    );
    assert_eq!(action, Action::DequeuePicture);

    let mut memory: Vec<u8> = (0..384u32).map(|byte| byte as u8).collect();
    let held = Buffer::new(vec![Mapping::new(&mut memory)]);
    let reply = Reply::Picture(picture_buffer(3, 384, 7, 0), Some(&held));
    assert!(decoder.admits(&reply));
    assert_eq!(decoder.step(reply, 0), Action::QueuePicture { index: 3 });
    assert_eq!(decoder.step(Reply::Done, 0), Action::DequeuePicture);
    assert_eq!(
        decoder.step(Reply::Picture(Dequeue::Empty, None), 0),
        Action::Done
    );
    let frames = decoder.take_frames();
    assert_eq!(frames.len(), 1);
    assert_eq!(frames[0].timestamp.as_micros(), 7);
    assert_eq!(frames[0].picture.size(), Size::new(4, 2));
    assert_eq!(frames[0].picture.y(), &[0, 1, 2, 3, 16, 17, 18, 19]);
    assert_eq!(frames[0].picture.u(), &[0, 1]);
    assert_eq!(frames[0].picture.v(), &[64, 65]);
}

#[test]
fn empty_and_bad_pictures_are_not_shown() {
    let mut decoder = decoder();
    submit(&mut decoder, 1, 0, 0);
    decoder.step(Reply::Changed(true), 0);
    negotiate(&mut decoder, stream_format(NV12, 4, 2), None, 0);
    let mut memory = vec![0u8; 64];
    let held = Buffer::new(vec![Mapping::new(&mut memory)]);
    for dequeue in [
        picture_buffer(0, 0, 1, 0),
        picture_buffer(1, 12, 2, FLAG_ERROR),
    ] {
        let index = dequeue.buffer().unwrap().index;
        assert_eq!(
            decoder.step(Reply::Picture(dequeue, Some(&held)), 0),
            Action::QueuePicture { index }
        );
        assert_eq!(decoder.step(Reply::Done, 0), Action::DequeuePicture);
    }
    decoder.step(
        Reply::Picture(picture_buffer(2, 12, 3, FLAG_LAST), Some(&held)),
        0,
    );
    assert_eq!(decoder.step(Reply::Done, 0), Action::Done);
    assert_eq!(decoder.take_frames().len(), 1);
    // A buffer that is not of the pool, or comes without its memory, is no answer.
    submit(&mut decoder, 1, 0, 0);
    decoder.step(Reply::Changed(false), 0);
    let stray = Reply::Picture(picture_buffer(9, 12, 3, 0), Some(&held));
    assert!(!decoder.admits(&stray));
    assert!(!decoder.admits(&Reply::Picture(picture_buffer(2, 12, 3, 0), None)));
}

#[test]
fn a_buffer_too_small_for_its_picture_still_goes_back() {
    let mut decoder = decoder();
    submit(&mut decoder, 1, 0, 0);
    decoder.step(Reply::Changed(true), 0);
    negotiate(&mut decoder, stream_format(NV12, 4, 2), None, 0);
    let mut little = vec![0u8; 5];
    let small = Buffer::new(vec![Mapping::new(&mut little)]);
    let action = decoder.step(
        Reply::Picture(picture_buffer(2, 12, 3, FLAG_LAST), Some(&small)),
        0,
    );
    assert_eq!(action, Action::QueuePicture { index: 2 });
    assert!(decoder.admits(&Reply::Done));
    assert_eq!(
        decoder.step(Reply::Done, 0),
        Action::Fail(Error::Short { len: 5, needed: 8 })
    );
    assert!(decoder.take_frames().is_empty());
    // The failure is that call's alone.
    submit(&mut decoder, 1, 0, 0);
    decoder.step(Reply::Changed(false), 0);
    let mut memory = vec![0u8; 64];
    let held = Buffer::new(vec![Mapping::new(&mut memory)]);
    let reply = Reply::Picture(picture_buffer(2, 12, 3, FLAG_LAST), Some(&held));
    assert_eq!(decoder.step(reply, 0), Action::QueuePicture { index: 2 });
    assert_eq!(decoder.step(Reply::Done, 0), Action::Done);
    assert_eq!(decoder.take_frames().len(), 1);
    // A driver that does not take the buffer back is the failure that shows.
    submit(&mut decoder, 1, 0, 0);
    decoder.step(Reply::Changed(false), 0);
    decoder.step(
        Reply::Picture(picture_buffer(2, 12, 3, 0), Some(&small)),
        0,
    );
    assert_eq!(
        decoder.step(Reply::Refused, 0),
        Action::Fail(Error::Refused)
    );
}

#[test]
fn a_stream_without_a_size_is_given_up_on() {
    let mut decoder = decoder();
    submit(&mut decoder, 1, 0, 1_000_000);
    assert_eq!(decoder.step(Reply::Changed(false), 1_000_000), Action::Wait);
    assert_eq!(
        decoder.step(Reply::Done, 6_000_000),
        Action::TakeSourceChange
    );
    // Missing it is no error on its own.
    assert_eq!(
        decoder.step(Reply::Changed(false), 251_000_000),
        Action::Done
    );
    assert!(decoder.take_frames().is_empty());
    submit(&mut decoder, 1, 0, 4_600_000_000);
    assert_eq!(
        decoder.step(Reply::Changed(false), 5_000_999_999),
        Action::Done
    );
    submit(&mut decoder, 1, 0, 5_000_999_999);
    let action = decoder.step(Reply::Changed(false), 5_251_000_007);
    assert_eq!(
        action,
        Action::Fail(Error::SizeUnknown {
            waited: 5_250_000_007
        })
    );
}

#[test]
fn a_change_of_size_takes_the_pictures_before_it() {
    let mut decoder = decoder();
    submit(&mut decoder, 1, 0, 0);
    decoder.step(Reply::Changed(true), 0);
    negotiate(&mut decoder, stream_format(NV12, 4, 2), None, 0);
    decoder.step(Reply::Picture(Dequeue::Empty, None), 0);

    submit(&mut decoder, 1, 1, 10);
    assert_eq!(
        decoder.step(Reply::Changed(true), 10),
        Action::DequeuePicture
    );
    assert_eq!(
        decoder.step(Reply::Picture(Dequeue::Empty, None), 10),
        Action::Wait
    );
    assert_eq!(decoder.step(Reply::Done, 20), Action::DequeuePicture);
    let mut memory = vec![5u8; 64];
    let held = Buffer::new(vec![Mapping::new(&mut memory)]);
    decoder.step(
        Reply::Picture(picture_buffer(0, 12, 1, FLAG_LAST), Some(&held)),
        20,
    );
    assert_eq!(decoder.step(Reply::Done, 20), Action::Release);
    assert_eq!(decoder.step(Reply::Done, 20), Action::GetFormat);
    let action = negotiate(&mut decoder, stream_format(NV12, 8, 4), None, 20);
    assert_eq!(action, Action::DequeuePicture);
    decoder.step(Reply::Picture(Dequeue::Ended, None), 20);
    let frames = decoder.take_frames();
    assert_eq!(frames.len(), 1);
    assert_eq!(frames[0].picture.size(), Size::new(4, 2));

    // A tail that never ends is cut off.
    submit(&mut decoder, 1, 2, 30);
    decoder.step(Reply::Changed(true), 30);
    assert_eq!(
        decoder.step(Reply::Picture(Dequeue::Empty, None), 500_000_030),
        Action::Release
    );
}

#[test]
fn a_tiled_default_is_renegotiated() {
    let mut decoder = decoder();
    submit(&mut decoder, 1, 0, 0);
    decoder.step(Reply::Changed(true), 0);
    let tiled = stream_format(0x3132_4d4d, 64, 32);
    assert_eq!(
        decoder.step(Reply::Negotiated(tiled), 0),
        Action::ListFormats
    );
    let action = decoder.step(Reply::Offered(vec![1, YUV420M, YUV420]), 0);
    let Action::SetFormat { request } = action else {
        panic!("{action:?}")
    };
    assert_eq!(request.pixelformat, YUV420);
    assert_eq!(request.size, Size::new(64, 32));
    let action = negotiate(&mut decoder, stream_format(YUV420, 64, 32), None, 0);
    assert_eq!(action, Action::DequeuePicture);
}

#[test]
fn a_decoder_with_nothing_to_offer_is_refused() {
    let mut decoder = decoder();
    submit(&mut decoder, 1, 0, 0);
    decoder.step(Reply::Changed(true), 0);
    decoder.step(Reply::Negotiated(stream_format(0x3132_4d4d, 64, 32)), 0);
    let action = decoder.step(Reply::Offered(vec![1]), 0);
    let Action::Fail(err) = action else {
        panic!("{action:?}")
    };
    assert_eq!(
        err.message(),
        "V4L2 decoder defaults to MM21 and offers no 8-bit 4:2:0 format for this stream"
    );
    // A driver that will not say what it needs gets the default count.
    submit(&mut decoder, 1, 0, 0);
    decoder.step(Reply::Changed(true), 0);
    decoder.step(Reply::Negotiated(stream_format(NV12, 64, 32)), 0);
    assert_eq!(
        decoder.step(Reply::Visible(None), 0),
        Action::MinimumBuffers
    );
    assert_eq!(
        decoder.step(Reply::Minimum(None), 0),
        Action::RequestBuffers { count: 8 }
    );
    assert_eq!(
        decoder.step(Reply::Granted(0), 0),
        Action::Fail(Error::NoBuffers)
    );
    // And one that says nonsense gets one of its own.
    submit(&mut decoder, 1, 0, 0);
    decoder.step(Reply::Changed(true), 0);
    decoder.step(Reply::Negotiated(stream_format(NV12, 64, 32)), 0);
    decoder.step(Reply::Visible(None), 0);
    assert_eq!(
        decoder.step(Reply::Minimum(Some(-7)), 0),
        Action::RequestBuffers { count: 4 }
    );
}

#[test]
fn an_oversized_unit_costs_no_buffer() {
    let mut decoder = decoder();
    for _ in 0..6 {
        decoder.decode(65, fed(0), 0);
        let action = decoder.step(Reply::Coded(Dequeue::Empty), 0);
        let Action::Fail(err) = action else {
            panic!("{action:?}")
        };
        assert_eq!(
            err.message(),
            "access unit of 65 bytes exceeds the V4L2 decoder's 64 byte buffer"
        );
    }
    submit(&mut decoder, 64, 0, 0);
}

#[test]
fn a_wedged_decoder_is_given_up_on() {
    let mut decoder = decoder();
    for unit in 0..4 {
        submit(&mut decoder, 1, unit, 0);
        decoder.step(Reply::Changed(false), 250_000_000);
    }
    decoder.decode(1, fed(4), 0);
    assert_eq!(
        decoder.step(Reply::Coded(Dequeue::Empty), 499_999_999),
        Action::Wait
    );
    decoder.step(Reply::Done, 499_999_999);
    let action = decoder.step(Reply::Coded(Dequeue::Empty), 500_000_000);
    let Action::Fail(err) = action else {
        panic!("{action:?}")
    };
    assert_eq!(
        err.message(),
        "V4L2 decoder held every input buffer for 500ms"
    );
    // A buffer that comes back is used again, flagged bad or not.
    decoder.decode(1, fed(5), 0);
    let back = Dequeue::Buffer(Dequeued::new(2, [0; 3], 0, 0, FLAG_ERROR));
    assert_eq!(decoder.step(Reply::Coded(back), 0), Action::DequeueCoded);
    assert_eq!(
        decoder.step(Reply::Coded(Dequeue::Empty), 0),
        Action::Fill { index: 2 }
    );
}

#[test]
fn a_unit_fills_the_front_of_its_buffer() {
    let mut plane = [9u8; 6];
    fill(&mut plane, &[1, 2, 3]);
    assert_eq!(plane, [1, 2, 3, 9, 9, 9]);
}

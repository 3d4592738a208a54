use moq_video::encode::open::{self, Config, Opening, H264_LEVEL};
use moq_video::encode::v4l2::{Action, Reply, V4l2};
use moq_video::error::Error;
use moq_video::frame::{Color, Size};
use moq_video::time::{Duration, Timestamp};
use moq_video::v4l2::format::{Dir, Format, Plane};
use moq_video::v4l2::fourcc::{H264, NV12, YUV420};
use moq_video::v4l2::queue::{AllocStep, Dequeue, Dequeued, FLAG_ERROR, FLAG_LAST};

const SIZE: Size = Size {
    width: 640,
    height: 360,
};

fn encoder_config() -> Config {
    Config {
        size: SIZE,
        gop: 60,
        bitrate: 2_000_000,
        framerate: 30,
        color: Color::Bt709Limited,
    }
}

fn coded_format(pixelformat: u32) -> Format {
    Format {
        pixelformat,
        size: SIZE,
        planes: vec![Plane {
            stride: 0,
            sizeimage: 262_144,
        }],
    }
}

fn raw_format() -> Format {
    Format {
        pixelformat: YUV420,
        size: Size::new(640, 368),
        planes: vec![Plane {
            stride: 640,
            sizeimage: 640 * 368 * 3 / 2,
        }],
    }
}

/// Answer every action the way a driver that does everything would.
fn obliging(action: &open::Action) -> open::Reply {
    match action {
        open::Action::SetControl { .. } | open::Action::SetFramerate { .. } => open::Reply::Done,
        open::Action::SetFormat {
            dir: Dir::Capture, ..
        } => open::Reply::Negotiated(coded_format(H264)),
        open::Action::SetFormat {
            dir: Dir::Output, ..
        } => open::Reply::Negotiated(raw_format()),
        open::Action::RequestBuffers { count, .. } => open::Reply::Granted(*count),
        open::Action::Allocate {
            step: AllocStep::Query { .. },
            ..
        } => open::Reply::Done,
        open::Action::Allocate { .. } => open::Reply::Mapped(400_000),
        action => panic!("{action:?}"),
    }
}

fn encoder() -> V4l2 {
    let (mut opening, mut action) = Opening::open(encoder_config()).unwrap();
    while action != open::Action::Ready {
        let reply = obliging(&action);
        assert!(opening.admits(&reply));
        action = opening.step(reply);
    }
    assert!(opening.repeats());
    opening.finish().unwrap()
}

#[test]
fn an_encoder_is_set_up_in_the_order_drivers_need() {
    let (mut opening, mut action) = Opening::open(encoder_config()).unwrap();
    let mut asked = Vec::new();
    while action != open::Action::Ready {
        asked.push(match &action {
            open::Action::SetControl { id, value } => format!("{id:#x}={value}"),
            open::Action::SetFormat { dir, request } => format!(
                "{dir:?} {:#x} {:?} {:?}",
                request.pixelformat, request.sizeimage, request.color
            ),
            open::Action::SetFramerate { framerate } => format!("fps {framerate}"),
            open::Action::RequestBuffers { dir, count } => format!("{dir:?} x{count}"),
            open::Action::Allocate { .. } => "map".to_string(),
            action => panic!("{action:?}"),
        });
        let reply = obliging(&action);
        action = opening.step(reply);
    }
    let mapped = asked.iter().filter(|text| *text == "map").count();
    assert_eq!(mapped, 2 * (4 + 8));
    asked.retain(|text| text != "map");
    assert_eq!(
        asked,
        vec![
            "0x990a6b=1",
            "0x990a67=8",
            "0x9909cb=60",
            "0x9909cf=2000000",
            "0x9909ce=1",
            "0x9909d8=1",
            "0x9909e2=1",
            "0x990b84=1",
            "Capture 0x34363248 Some(262144) None",
            "Output 0x3231564e None Some(Bt709Limited)",
            "fps 30",
            "Output x4",
            "Capture x8",
        ]
    );
}

#[test]
fn optional_controls_may_be_refused_and_the_rest_may_not() {
    let (mut opening, mut action) = Opening::open(encoder_config()).unwrap();
    for _ in 0..4 {
        let reply = obliging(&action);
        action = opening.step(reply);
    }
    for _ in 0..4 {
        assert!(matches!(action, open::Action::SetControl { .. }));
        action = opening.step(open::Reply::Refused);
    }
    assert!(!opening.repeats());
    assert!(matches!(action, open::Action::SetFormat { .. }));

    let (mut opening, _) = Opening::open(encoder_config()).unwrap();
    let action = opening.step(open::Reply::Done);
    assert!(matches!(action, open::Action::SetControl { id, .. } if id == H264_LEVEL));
    assert_eq!(
        opening.step(open::Reply::Refused),
        open::Action::Fail(Error::Refused)
    );
    assert!(!opening.admits(&open::Reply::Done));
    assert!(opening.finish().is_none());
}

#[test]
fn one_way_of_repeating_parameter_sets_is_enough() {
    for last in [false, true] {
        let (mut opening, mut action) = Opening::open(encoder_config()).unwrap();
        for _ in 0..6 {
            let reply = obliging(&action);
            action = opening.step(reply);
        }
        let (first, second) = match last {
            true => (open::Reply::Refused, open::Reply::Done),
            false => (open::Reply::Done, open::Reply::Refused),
        };
        opening.step(first);
        opening.step(second);
        assert!(opening.repeats());
    }
}

#[test]
fn an_encoder_that_does_not_do_h264_is_refused() {
    let (mut opening, mut action) = Opening::open(encoder_config()).unwrap();
    while !matches!(action, open::Action::SetFormat { .. }) {
        let reply = obliging(&action);
        action = opening.step(reply);
    }
    let action = opening.step(open::Reply::Negotiated(coded_format(NV12)));
    let open::Action::Fail(err) = action else {
        panic!("{action:?}")
    };
    assert_eq!(
        err.message(),
        "V4L2 encoder answered an H264 request with NV12"
    );

    let odd = Config {
        size: Size::new(641, 360),
        ..encoder_config()
    };
    assert_eq!(
        Opening::open(odd).unwrap_err(),
        Error::InvalidSize {
            size: Size::new(641, 360)
        }
    );
}

#[test]
fn a_raw_format_that_cannot_be_laid_out_is_refused() {
    let (mut opening, mut action) = Opening::open(encoder_config()).unwrap();
    while !matches!(action, open::Action::RequestBuffers { .. }) {
        let reply = match &action {
            open::Action::SetFormat {
                dir: Dir::Output, ..
            } => open::Reply::Negotiated(coded_format(H264)),
            action => obliging(action),
        };
        action = opening.step(reply);
        if let open::Action::Fail(err) = &action {
            assert_eq!(*err, Error::UnsupportedRaw { pixelformat: H264 });
            return;
        }
    }
    panic!("laid out an elementary stream");
}

/// A driver that encodes each frame into one byte, `depth` frames later.
struct Driver {
    depth: usize,
    raw: Vec<(u32, Duration)>,
    queued: Vec<(u32, Duration)>,
    coded: Vec<u32>,
    stopped: bool,
    ended: bool,
    commands: bool,
    asked: Vec<Action>,
}

impl Driver {
    fn new(depth: usize) -> Self {
        Driver {
            depth,
            raw: Vec::new(),
            queued: Vec::new(),
            coded: Vec::new(),
            stopped: false,
            ended: false,
            commands: true,
            asked: Vec::new(),
        }
    }

    /// Run a call to its end, a millisecond per action.
    fn run(&mut self, encoder: &mut V4l2, begun: Action, now: &mut u64) -> Result<usize, Error> {
        let mut action = begun;
        loop {
            self.asked.push(action.clone());
            *now += 1_000_000;
            let payload = [0x65u8, 0, 0, 0];
            let reply = match action {
                Action::Done => return Ok(0),
                Action::Fail(err) => return Err(err),
                Action::DequeueRaw => Reply::Raw(match self.raw.is_empty() {
                    true => Dequeue::Empty,
                    false => {
                        let (index, at) = self.raw.remove(0);
                        let at = at.as_micros() as u64;
                        Dequeue::Buffer(Dequeued::new(
                            index,
                            [0; 3],
                            at / 1_000_000,
                            (at % 1_000_000) as u32,
                            0,
                        ))
                    }
                }),
                Action::QueueRaw { index, timestamp } => {
                    let submission = encoder.raw_submission(index, timestamp);
                    assert_eq!(submission.planes[0].bytesused, 640 * 368 * 3 / 2);
                    assert_eq!(submission.planes[0].length, 400_000);
                    self.queued.push((index, timestamp));
                    Reply::Done
                }
                Action::QueueCoded { index } => {
                    assert_eq!(encoder.coded_submission(index).index, index);
                    self.coded.push(index);
                    Reply::Done
                }
                Action::DequeueCoded => {
                    let ready =
                        self.queued.len() > self.depth || (self.stopped && !self.queued.is_empty());
                    if ready {
                        let (raw, at) = self.queued.remove(0);
                        self.raw.push((raw, at));
                        let last = self.stopped && self.queued.is_empty();
                        self.ended = last;
                        let at = at.as_micros() as u64;
                        let index = self.coded.remove(0);
                        let flags = if last { FLAG_LAST } else { 0 };
                        let buffer = Dequeued::new(
                            index,
                            [4, 0, 0],
                            at / 1_000_000,
                            (at % 1_000_000) as u32,
                            flags,
                        );
                        Reply::Coded(Dequeue::Buffer(buffer), &payload)
                    } else if self.stopped {
                        Reply::Coded(Dequeue::Ended, &[])
                    } else {
                        Reply::Coded(Dequeue::Empty, &[])
                    }
                }
                Action::Stop => match self.commands {
                    true => {
                        self.stopped = true;
                        Reply::Done
                    }
                    false => Reply::Refused,
                },
                Action::Start => {
                    self.stopped = false;
                    Reply::Done
                }
                Action::Convert
                | Action::Wait
                | Action::Write { .. }
                | Action::ForceKeyframe
                | Action::StreamRaw
                | Action::StreamCoded => Reply::Done,
            };
            assert!(encoder.admits(&reply));
            action = encoder.step(reply, *now);
        }
    }
}

fn at(micros: u64) -> Timestamp {
    Timestamp::from_micros(micros).unwrap()
}

#[test]
fn frames_come_out_under_their_own_times() {
    let mut encoder = encoder();
    let mut driver = Driver::new(2);
    let mut now = 0;
    let mut out = Vec::new();
    for frame in 0..5u64 {
        let begun = encoder.encode(SIZE, at(frame * 33_000), frame == 0);
        driver.run(&mut encoder, begun, &mut now).unwrap();
        out.extend(encoder.take_output());
    }
    assert_eq!(out.len(), 3);
    let begun = encoder.flush(now);
    driver.run(&mut encoder, begun, &mut now).unwrap();
    out.extend(encoder.take_output());
    let times: Vec<u128> = out.iter().map(|unit| unit.timestamp.as_micros()).collect();
    assert_eq!(times, vec![0, 33_000, 66_000, 99_000, 132_000]);
    // Without the driver's padding.
    assert_eq!(&out[0].payload[..], &[0x65]);
    assert_eq!(*driver.asked.last().unwrap(), Action::Done);
    assert_eq!(driver.asked[driver.asked.len() - 2], Action::Start);
    assert!(!driver.stopped);
    // Streaming goes on after.
    let begun = encoder.encode(SIZE, at(165_000), true);
    driver.run(&mut encoder, begun, &mut now).unwrap();
}

#[test]
fn streaming_starts_once_a_frame_is_in() {
    let mut encoder = encoder();
    let mut driver = Driver::new(0);
    let begun = encoder.encode(SIZE, at(0), true);
    driver.run(&mut encoder, begun, &mut 0).unwrap();
    let asked = &driver.asked;
    let position = |wanted: &Action| asked.iter().position(|action| action == wanted).unwrap();
    let queued = asked
        .iter()
        .position(|action| matches!(action, Action::QueueRaw { .. }))
        .unwrap();
    assert_eq!(asked[queued - 1], Action::ForceKeyframe);
    assert_eq!(position(&Action::StreamRaw), queued + 1);
    assert_eq!(position(&Action::StreamCoded), queued + 2 + 8);
    assert_eq!(encoder.take_output().len(), 1);
}

#[test]
fn nothing_is_flushed_before_the_first_frame() {
    let mut encoder = encoder();
    assert_eq!(encoder.flush(0), Action::Done);
    assert_eq!(encoder.finish(0), Action::Done);
    assert!(encoder.take_output().is_empty());
    assert!(!encoder.admits(&Reply::Done));
}

#[test]
fn a_frame_of_another_size_is_refused() {
    let mut encoder = encoder();
    let Action::Fail(err) = encoder.encode(Size::new(320, 240), at(0), false) else {
        panic!()
    };
    assert_eq!(
        err.message(),
        "V4L2 encoder opened for 640x360 was given a 320x240 frame"
    );
    assert_eq!(encoder.planes().size, SIZE);
    assert_eq!(encoder.name(), "v4l2");
}

#[test]
fn a_keyframe_request_is_refused_once() {
    let mut encoder = encoder();
    let mut driver = Driver::new(0);
    let mut now = 0;
    let mut action = encoder.encode(SIZE, at(0), true);
    while action != Action::ForceKeyframe {
        let reply = match action {
            Action::DequeueRaw => Reply::Raw(Dequeue::Empty),
            _ => Reply::Done,
        };
        action = encoder.step(reply, now);
    }
    let action = encoder.step(Reply::Refused, now);
    assert!(matches!(action, Action::QueueRaw { .. }));
    driver.run(&mut encoder, action, &mut now).unwrap();
    let begun = encoder.encode(SIZE, at(33_000), true);
    driver.run(&mut encoder, begun, &mut now).unwrap();
    assert!(!driver.asked.contains(&Action::ForceKeyframe));
}

#[test]
fn a_driver_that_takes_no_command_is_waited_out() {
    let mut encoder = encoder();
    let mut driver = Driver::new(0);
    driver.commands = false;
    let mut now = 0;
    let begun = encoder.encode(SIZE, at(0), false);
    driver.run(&mut encoder, begun, &mut now).unwrap();
    let begun = encoder.flush(now);
    driver.run(&mut encoder, begun, &mut now).unwrap();
    assert!(!driver.asked.contains(&Action::Start));
    // Not asked again.
    assert_eq!(encoder.flush(now), Action::DequeueRaw);
}

#[test]
fn a_wedged_encoder_is_given_up_on() {
    let mut encoder = encoder();
    let mut driver = Driver::new(9);
    driver.commands = false;
    let mut now = 0;
    for frame in 0..3u64 {
        let begun = encoder.encode(SIZE, at(frame), false);
        driver.run(&mut encoder, begun, &mut now).unwrap();
    }
    let started = now;
    let begun = encoder.flush(now);
    let err = driver.run(&mut encoder, begun, &mut now).unwrap_err();
    assert_eq!(err, Error::FramesHeld { frames: 3 });
    assert_eq!(
        err.message(),
        "V4L2 encoder held 3 frame(s) for 500ms without encoding them"
    );
    assert!(now - started >= 500_000_000);

    // Four raw buffers, none of which come back.
    for frame in 3..4u64 {
        let begun = encoder.encode(SIZE, at(frame), false);
        driver.run(&mut encoder, begun, &mut now).unwrap();
    }
    let started = now;
    let begun = encoder.encode(SIZE, at(9), false);
    let err = driver.run(&mut encoder, begun, &mut now).unwrap_err();
    assert_eq!(
        err.message(),
        "V4L2 encoder held every input buffer for 500ms"
    );
    assert!(now - started >= 500_000_000);
}

#[test]
fn a_drain_that_never_ends_is_given_up_on() {
    let mut encoder = encoder();
    let mut driver = Driver::new(5);
    let mut now = 0;
    let begun = encoder.encode(SIZE, at(0), false);
    driver.run(&mut encoder, begun, &mut now).unwrap();
    let mut action = encoder.flush(now);
    assert_eq!(action, Action::Stop);
    loop {
        now += 10_000_000;
        let reply = match action {
            Action::Stop | Action::Wait => Reply::Done,
            Action::DequeueRaw => Reply::Raw(Dequeue::Empty),
            Action::DequeueCoded => Reply::Coded(Dequeue::Empty, &[]),
            Action::Fail(err) => {
                assert_eq!(
                    err.message(),
                    "V4L2 encoder did not finish its drain within 500ms, holding 1 frame(s)"
                );
                return;
            }
            action => panic!("{action:?}"),
        };
        action = encoder.step(reply, now);
    }
}

#[test]
fn a_bad_buffer_goes_back_and_is_not_published() {
    let mut encoder = encoder();
    let mut driver = Driver::new(9);
    let mut now = 0;
    for frame in 0..2u64 {
        let begun = encoder.encode(SIZE, at(frame), false);
        driver.run(&mut encoder, begun, &mut now).unwrap();
    }
    encoder.flush(now);
    encoder.step(Reply::Done, now);
    encoder.step(Reply::Raw(Dequeue::Empty), now);
    let memory = [1u8, 2, 3];
    let bad = Dequeued::new(5, [3, 0, 0], 0, 0, FLAG_ERROR);
    assert_eq!(
        encoder.step(Reply::Coded(Dequeue::Buffer(bad), &memory), now),
        Action::QueueCoded { index: 5 }
    );
    assert_eq!(encoder.step(Reply::Done, now), Action::DequeueCoded);
    // A buffer the driver never had is no answer.
    let stray = Dequeued::new(99, [3, 0, 0], 0, 1, 0);
    assert!(!encoder.admits(&Reply::Coded(Dequeue::Buffer(stray), &memory)));
    assert_eq!(
        encoder.answered(Reply::Coded(Dequeue::Buffer(stray), &memory), now),
        None
    );
    assert_eq!(encoder.answered(Reply::Done, now), None);
    let good = Dequeued::new(6, [3, 0, 0], 0, 1, FLAG_LAST);
    assert_eq!(
        encoder.answered(Reply::Coded(Dequeue::Buffer(good), &memory), now),
        Some(Action::QueueCoded { index: 6 })
    );
    assert_eq!(encoder.step(Reply::Done, now), Action::Start);
    assert_eq!(encoder.step(Reply::Done, now), Action::Done);
    let out = encoder.take_output();
    assert_eq!(out.len(), 1);
    assert_eq!(out[0].timestamp.as_micros(), 1);
}

#[test]
fn a_bitrate_change_may_be_refused() {
    let encoder = encoder();
    assert_eq!(encoder.set_bitrate(true), Ok(()));
    assert_eq!(encoder.set_bitrate(false), Err(Error::BitrateUnsupported));
}

#[test]
fn parameter_sets_on_their_own_go_in_front_of_the_next_unit() {
    let mut encoder = encoder();
    let mut driver = Driver::new(9);
    let mut now = 0;
    let begun = encoder.encode(SIZE, at(1_500_000), false);
    driver.run(&mut encoder, begun, &mut now).unwrap();
    encoder.flush(now);
    encoder.step(Reply::Done, now);
    encoder.step(Reply::Raw(Dequeue::Empty), now);
    // SPS/PPS under a time nothing was queued at, then nothing but padding.
    let header = Dequeued::new(0, [5, 0, 0], 0, 0, 0);
    encoder.step(Reply::Coded(Dequeue::Buffer(header), &[0, 0, 0, 1, 0x67]), now);
    assert_eq!(encoder.step(Reply::Done, now), Action::DequeueCoded);
    let padding = Dequeued::new(1, [4, 0, 0], 1, 500_000, 0);
    encoder.step(Reply::Coded(Dequeue::Buffer(padding), &[0; 4]), now);
    assert_eq!(encoder.step(Reply::Done, now), Action::DequeueCoded);
    let unit = Dequeued::new(2, [5, 0, 0], 1, 500_000, FLAG_LAST);
    encoder.step(Reply::Coded(Dequeue::Buffer(unit), &[0, 0, 0, 1, 0x65]), now);
    assert_eq!(encoder.step(Reply::Done, now), Action::Start);
    encoder.step(Reply::Done, now);
    let out = encoder.take_output();
    assert_eq!(out.len(), 1);
    assert_eq!(&out[0].payload[..], &[0, 0, 0, 1, 0x67, 0, 0, 0, 1, 0x65]);
    assert_eq!(out[0].timestamp.as_micros(), 1_500_000);
}

#[test]
fn the_last_time_that_can_be_sent_is_published() {
    let mut encoder = encoder();
    let mut driver = Driver::new(9);
    let mut now = 0;
    let far = moq_video::time::MAX_TIMESTAMP;
    let begun = encoder.encode(SIZE, at(far), false);
    driver.run(&mut encoder, begun, &mut now).unwrap();
    encoder.flush(now);
    encoder.step(Reply::Done, now);
    encoder.step(Reply::Raw(Dequeue::Empty), now);
    let unit = Dequeued::new(2, [1, 0, 0], far / 1_000_000, (far % 1_000_000) as u32, FLAG_LAST);
    encoder.step(Reply::Coded(Dequeue::Buffer(unit), &[7]), now);
    assert_eq!(encoder.step(Reply::Done, now), Action::Start);
    assert_eq!(encoder.take_output()[0].timestamp.as_micros(), far as u128);
}

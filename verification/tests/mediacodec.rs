use moq_video::decode::mediacodec::{
    codec_err, decoder_format, image_size, reader_err, Action, Crop, Image, MediaCodec, OutputInfo,
    Reply, Value, FLAG_CODEC_CONFIG, SUBMIT_ROUNDS,
};
use moq_video::decode::Codec;
use moq_video::error::Error;
use moq_video::frame::Size;
use moq_video::time::Timestamp;

fn image(width: i32, height: i32, crop: (i32, i32, i32, i32)) -> Image {
    let (left, top, right, bottom) = crop;
    Image {
        width,
        height,
        crop: Crop {
            left,
            top,
            right,
            bottom,
        },
    }
}

#[test]
fn the_crop_says_how_much_is_the_picture() {
    let padded = image(1920, 1088, (0, 0, 1920, 1080));
    assert_eq!(image_size(&padded), Ok(Size::new(1920, 1080)));
    // An offset crop gets the whole buffer rather than a shifted picture.
    let offset = image(1920, 1088, (8, 0, 1920, 1080));
    assert_eq!(image_size(&offset), Ok(Size::new(1920, 1088)));
    // So does one larger than the buffer, and an empty one.
    let larger = image(640, 480, (0, 0, 641, 480));
    assert_eq!(image_size(&larger), Ok(Size::new(640, 480)));
    let empty = image(640, 480, (0, 0, 0, 0));
    assert_eq!(image_size(&empty), Ok(Size::new(640, 480)));
    // Odd dimensions lose their last row and column.
    let odd = image(641, 481, (0, 0, 321, 241));
    assert_eq!(image_size(&odd), Ok(Size::new(320, 240)));
    let err = image_size(&image(-4, 1, (0, 0, 0, 0))).unwrap_err();
    assert_eq!(
        err.message(),
        "MediaCodec produced a -4x1 image, which is not a picture"
    );
    assert!(!image(1, 1, (i32::MIN, 0, i32::MAX, 0)).measures());
    assert!(padded.measures());
}

#[test]
fn the_stream_is_described_for_live_playback() {
    assert_eq!(Codec::H264.mime(), "video/avc");
    assert_eq!(Codec::H265.mime(), "video/hevc");
    assert_eq!(Codec::Av1.mime(), "video/av01");
    let entries = decoder_format(Codec::Av1.mime(), 1920, 1080);
    let listed: Vec<String> = entries
        .iter()
        .map(|entry| match entry.value {
            Value::Str(text) => format!("{}={text}", entry.key),
            Value::Int(value) => format!("{}={value}", entry.key),
        })
        .collect();
    assert_eq!(
        listed,
        vec![
            "mime=video/av01",
            "width=1920",
            "height=1080",
            "low-latency=1",
            "priority=0"
        ]
    );
}

#[test]
fn media_errors_name_the_call() {
    assert_eq!(
        codec_err("start", "UNKNOWN"),
        "failed to start on the MediaCodec decoder: UNKNOWN"
    );
    assert_eq!(
        reader_err("acquire an image", "x"),
        "failed to acquire an image on the decoder's ImageReader: x"
    );
}

fn picture_at(micros: i64) -> OutputInfo {
    OutputInfo {
        flags: 0,
        size: 10,
        presentation_time_us: micros,
    }
}

const WHOLE: Image = Image {
    width: 64,
    height: 48,
    crop: Crop {
        left: 0,
        top: 0,
        right: 64,
        bottom: 48,
    },
};

fn fed_at(micros: u64) -> Timestamp {
    Timestamp::from_micros(micros).unwrap()
}

#[test]
fn images_are_paired_with_the_pictures_released() {
    let mut decoder = MediaCodec::new();
    assert_eq!(decoder.name(), "mediacodec");
    assert_eq!(decoder.decode(100, fed_at(7)), Action::DequeueOutput);
    // Two pictures released before the reader has either.
    assert_eq!(
        decoder.step(Reply::Output(picture_at(20))),
        Action::ReleaseOutput { render: true }
    );
    assert_eq!(decoder.step(Reply::Done), Action::AcquireImage);
    assert_eq!(decoder.step(Reply::NoImage), Action::DequeueOutput);
    decoder.step(Reply::Output(picture_at(-5)));
    assert_eq!(decoder.step(Reply::Done), Action::AcquireImage);
    assert_eq!(
        decoder.step(Reply::Acquired(WHOLE)),
        Action::Emit {
            size: Size::new(64, 48),
            timestamp: fed_at(20)
        }
    );
    assert_eq!(decoder.step(Reply::Done), Action::AcquireImage);
    // A time before zero is zero.
    assert_eq!(
        decoder.step(Reply::Acquired(WHOLE)),
        Action::Emit {
            size: Size::new(64, 48),
            timestamp: fed_at(0)
        }
    );
    assert_eq!(decoder.step(Reply::Done), Action::DequeueOutput);
    assert_eq!(decoder.step(Reply::NoOutput), Action::DequeueInput);
    assert_eq!(
        decoder.step(Reply::Input(100)),
        Action::QueueInput { len: 100, time: 7 }
    );
    assert_eq!(decoder.step(Reply::Done), Action::DequeueOutput);
    assert_eq!(decoder.step(Reply::OutputChanged), Action::DequeueOutput);
    assert_eq!(decoder.step(Reply::NoOutput), Action::Done);
    assert!(!decoder.admits(Reply::Done));
}

#[test]
fn markers_and_parameter_sets_are_not_rendered() {
    let mut decoder = MediaCodec::new();
    decoder.decode(1, fed_at(0));
    for info in [
        OutputInfo {
            flags: FLAG_CODEC_CONFIG | 1,
            size: 30,
            presentation_time_us: 5,
        },
        OutputInfo {
            flags: 0,
            size: 0,
            presentation_time_us: 5,
        },
    ] {
        assert_eq!(
            decoder.step(Reply::Output(info)),
            Action::ReleaseOutput { render: false }
        );
        assert_eq!(decoder.step(Reply::Done), Action::DequeueOutput);
    }
}

#[test]
fn a_stall_is_reported_once() {
    let mut decoder = MediaCodec::new();
    decoder.decode(1, fed_at(0));
    decoder.step(Reply::Output(picture_at(1)));
    decoder.step(Reply::Done);
    assert_eq!(decoder.step(Reply::NoSlot), Action::WarnStalled);
    assert_eq!(decoder.step(Reply::Done), Action::DequeueOutput);
    assert_eq!(decoder.step(Reply::NoOutput), Action::AcquireImage);
    assert_eq!(decoder.step(Reply::NoSlot), Action::DequeueInput);
    decoder.step(Reply::NoInput);
    decoder.step(Reply::NoOutput);
    // The reader running dry clears it.
    assert_eq!(decoder.step(Reply::NoImage), Action::DequeueInput);
    decoder.step(Reply::NoInput);
    decoder.step(Reply::NoOutput);
    assert_eq!(decoder.step(Reply::NoSlot), Action::WarnStalled);
}

#[test]
fn a_submission_gives_up_after_its_rounds() {
    let mut decoder = MediaCodec::new();
    decoder.decode(1, fed_at(0));
    let mut action = decoder.step(Reply::NoOutput);
    for _ in 0..SUBMIT_ROUNDS {
        assert_eq!(action, Action::DequeueInput);
        assert_eq!(decoder.step(Reply::NoInput), Action::DequeueOutput);
        action = decoder.step(Reply::NoOutput);
    }
    let Action::Fail(err) = action else {
        panic!("{action:?}")
    };
    assert_eq!(
        err.message(),
        "MediaCodec never freed an input buffer for an access unit"
    );
}

#[test]
fn an_access_unit_has_to_fit_its_buffer() {
    let mut decoder = MediaCodec::new();
    decoder.decode(100, fed_at(0));
    decoder.step(Reply::NoOutput);
    let Action::Fail(err) = decoder.step(Reply::Input(99)) else {
        panic!()
    };
    assert_eq!(
        err,
        Error::InputTooSmall {
            capacity: 99,
            len: 100
        }
    );
    assert_eq!(
        err.message(),
        "MediaCodec input buffer is 99 bytes, needs 100 for this access unit"
    );
    // A failed call leaves the decoder ready for the next.
    assert_eq!(decoder.decode(1, fed_at(0)), Action::DequeueOutput);
    assert_eq!(
        decoder.step(Reply::Refused),
        Action::Fail(Error::Refused)
    );
}

#[test]
fn an_image_that_cannot_be_read_takes_its_time_along() {
    let mut decoder = MediaCodec::new();
    decoder.decode(1, fed_at(0));
    for micros in [20, 40, 60] {
        decoder.step(Reply::Output(picture_at(micros)));
        assert_eq!(decoder.step(Reply::Done), Action::AcquireImage);
        decoder.step(Reply::NoImage);
    }
    assert_eq!(decoder.step(Reply::NoOutput), Action::AcquireImage);
    // Nothing was acquired, so every time is still waiting.
    assert_eq!(
        decoder.step(Reply::Refused),
        Action::Fail(Error::Refused)
    );
    decoder.decode(1, fed_at(1));
    decoder.step(Reply::NoOutput);
    assert!(decoder.admits(Reply::Unreadable));
    assert_eq!(
        decoder.step(Reply::Unreadable),
        Action::Fail(Error::Refused)
    );
    decoder.decode(1, fed_at(2));
    assert!(!decoder.admits(Reply::Unreadable));
    decoder.step(Reply::NoOutput);
    // One that holds no picture goes the same way.
    let Action::Fail(err) = decoder.step(Reply::Acquired(image(1, 1, (0, 0, 0, 0)))) else {
        panic!()
    };
    assert_eq!(
        err,
        Error::NotAPicture {
            width: 1,
            height: 1
        }
    );
    decoder.decode(1, fed_at(3));
    decoder.step(Reply::NoOutput);
    assert_eq!(
        decoder.step(Reply::Acquired(WHOLE)),
        Action::Emit {
            size: Size::new(64, 48),
            timestamp: fed_at(60)
        }
    );
}

use moq_video::error::Error;
use moq_video::frame::Size;
use moq_video::v4l2::device::{
    capabilities, check_capabilities, no_buffers, poll_timeout, report, time_per_frame, Operation,
    Role, CAP_DEVICE_CAPS, CAP_M2M, CAP_M2M_MPLANE,
};
use moq_video::v4l2::format::Dir;
use moq_video::v4l2::fourcc::{H264, NV12, NV12M, YUV420, YUV420M};
use moq_video::v4l2::search::{Action, Candidate, Reply, Search};

#[test]
fn a_node_speaks_for_itself() {
    assert_eq!(capabilities(0x4000, 0x8000), 0x4000);
    assert_eq!(capabilities(0x4000 | CAP_DEVICE_CAPS, 0x8000), 0x8000);
    assert_eq!(check_capabilities(CAP_M2M_MPLANE), Ok(()));
    assert_eq!(check_capabilities(CAP_M2M_MPLANE | CAP_M2M), Ok(()));
    assert_eq!(check_capabilities(CAP_M2M), Err(Error::SinglePlanar));
    assert_eq!(check_capabilities(1), Err(Error::NotM2m));
}

#[test]
fn waits_and_framerates_fit_their_fields() {
    assert_eq!(poll_timeout(5), 5);
    assert_eq!(poll_timeout(u128::MAX), i32::MAX);
    assert_eq!(time_per_frame(30), (1, 30));
}

#[test]
fn a_role_is_served_by_any_of_its_formats() {
    let role = Role::encoder();
    assert_eq!(role.env, "MOQ_V4L2_ENCODER");
    assert_eq!(role.input, vec![NV12, NV12M, YUV420, YUV420M]);
    assert_eq!(role.output, vec![H264]);
    assert_eq!(role.check(Dir::Output, &[1, YUV420]), Ok(()));
    assert_eq!(role.check(Dir::Capture, &[H264]), Ok(()));
    let err = role.check(Dir::Capture, &[NV12, YUV420]).unwrap_err();
    assert_eq!(err.message(), "offers NV12/YU12 where H264 is needed");

    let role = Role::decoder();
    assert_eq!(role.env, "MOQ_V4L2_DECODER");
    assert_eq!(role.check(Dir::Output, &[H264]), Ok(()));
    let err = role.check(Dir::Capture, &[]).unwrap_err();
    assert_eq!(err.message(), "offers  where NV12/NM12/YU12/YM12 is needed");
}

fn video(index: usize) -> Candidate {
    Candidate {
        index,
        path: format!("/dev/video{index}"),
    }
}

fn is_m2m() -> Reply {
    Reply::Capabilities {
        driver: CAP_DEVICE_CAPS,
        device: CAP_M2M_MPLANE,
    }
}

#[test]
fn the_lowest_node_that_serves_is_found() {
    let nodes = vec![video(12), video(0), video(11)];
    let (mut search, action) = Search::open(Role::encoder(), None, nodes);
    assert!(matches!(action, Action::Open));
    assert_eq!(search.path().unwrap(), "/dev/video0");
    assert!(matches!(
        search.step(Reply::Done),
        Action::QueryCapabilities
    ));
    let camera = Reply::Capabilities {
        driver: 1,
        device: 0,
    };
    assert!(matches!(search.step(camera), Action::Open));

    assert_eq!(search.path().unwrap(), "/dev/video11");
    search.step(Reply::Done);
    assert!(matches!(
        search.step(is_m2m()),
        Action::ListFormats { dir: Dir::Output }
    ));
    assert!(matches!(
        search.step(Reply::Offered(vec![NV12])),
        Action::ListFormats { dir: Dir::Capture }
    ));
    assert!(!search.admits(&Reply::Done));
    assert!(matches!(
        search.step(Reply::Offered(vec![H264])),
        Action::Found
    ));
    assert_eq!(search.path().unwrap(), "/dev/video11");
}

#[test]
fn a_search_that_finds_nothing_says_what_it_tried() {
    let nodes = vec![video(2), video(1), video(0)];
    let (mut search, _) = Search::open(Role::decoder(), None, nodes);
    search.step(Reply::Failed("Permission denied".to_string()));
    search.step(Reply::Done);
    search.step(Reply::Capabilities {
        driver: CAP_M2M,
        device: 0,
    });
    search.step(Reply::Done);
    search.step(is_m2m());
    let action = search.step(Reply::Offered(vec![NV12]));
    let Action::Fail(err) = action else {
        panic!("{action:?}")
    };
    assert_eq!(
        err.message(),
        "no V4L2 M2M node converts H264 to NV12/NM12/YU12/YM12 (set MOQ_V4L2_DECODER to name \
         one; tried /dev/video0: /dev/video0: open: Permission denied, /dev/video1: /dev/video1: \
         single-planar M2M only, /dev/video2: offers NV12 where H264 is needed)"
    );

    let (_, action) = Search::open(Role::encoder(), None, Vec::new());
    let Action::Fail(err) = action else {
        panic!("{action:?}")
    };
    assert_eq!(
        err.message(),
        "no V4L2 M2M node converts NV12/NM12/YU12/YM12 to H264 (set MOQ_V4L2_ENCODER to name \
         one; tried no nodes)"
    );
}

#[test]
fn a_named_node_is_the_only_one_tried() {
    let named = Some("/dev/codec".to_string());
    let (mut search, _) = Search::open(Role::encoder(), named, vec![video(0)]);
    assert_eq!(search.path().unwrap(), "/dev/codec");
    search.step(Reply::Done);
    let action = search.step(Reply::Failed("I/O error".to_string()));
    let Action::Fail(err) = action else {
        panic!("{action:?}")
    };
    assert_eq!(err.message(), "/dev/codec: QUERYCAP: I/O error");
    let named = Some("/dev/codec".to_string());
    let (mut search, _) = Search::open(Role::encoder(), named, Vec::new());
    search.step(Reply::Done);
    let action = search.step(Reply::Capabilities {
        driver: 0,
        device: 0,
    });
    let Action::Fail(err) = action else {
        panic!("{action:?}")
    };
    assert_eq!(err.message(), "/dev/codec: not an M2M device");
}

#[test]
fn operations_are_named_in_their_errors() {
    let control = Operation::SetControl {
        id: 0x990a67,
        value: -3,
    };
    assert_eq!(
        control.err("/dev/video11", "Invalid argument"),
        "/dev/video11: S_CTRL 0x990a67 = -3: Invalid argument"
    );
    for (operation, text) in [
        (Operation::GetFormat, "G_FMT"),
        (Operation::SetFormat, "S_FMT"),
        (Operation::SetFramerate, "S_PARM"),
        (Operation::RequestBuffers { count: 8 }, "REQBUFS 8"),
        (Operation::QueryBuffer { index: 2 }, "QUERYBUF 2"),
        (Operation::MapBuffer { index: 0 }, "mmap buffer 0"),
        (Operation::QueueBuffer { index: 11 }, "QBUF 11"),
        (Operation::DequeueBuffer, "DQBUF"),
        (Operation::StreamOn, "STREAMON"),
        (Operation::StreamOff, "STREAMOFF"),
    ] {
        assert_eq!(operation.describe(), text);
    }
}

#[test]
fn failures_say_what_went_wrong() {
    let size = Size::new(640, 480);
    for (err, text) in [
        (
            Error::InvalidSize { size },
            "a 4:2:0 picture cannot be 640x480",
        ),
        (
            Error::InvalidLength { len: 3, size },
            "3 bytes are not a 640x480 picture",
        ),
        (
            Error::Negotiated {
                coded: Size::new(320, 240),
                size,
            },
            "V4L2 negotiated 320x240 for a 640x480 picture",
        ),
        (
            Error::UnsupportedRaw { pixelformat: H264 },
            "V4L2 chose the unsupported raw format H264",
        ),
        (Error::NoPlanes, "V4L2 reported a format with no planes"),
        (
            Error::MissingPlanes {
                pixelformat: YUV420M,
                planes: 2,
            },
            "V4L2 chose planar YM12 with 2 planes",
        ),
        (
            Error::Short {
                len: 16,
                needed: 64,
            },
            "V4L2 buffer of 16 bytes is too small for the 64 its format implies",
        ),
        (
            Error::SizeUnknown {
                waited: 5_250_000_007,
            },
            "V4L2 decoder did not report the stream's size within 5.250000007s",
        ),
        (Error::H264Only, "v4l2 decodes H.264 only"),
        (Error::Refused, "the device refused"),
        (
            Error::BitrateUnsupported,
            "v4l2 does not take a new bitrate",
        ),
        (
            Error::Render {
                what: "no".to_string(),
            },
            "no",
        ),
    ] {
        assert_eq!(err.message(), text);
    }
}

#[test]
fn a_refused_allocation_names_its_node() {
    let text = "/dev/video11: REQBUFS: out of memory";
    assert_eq!(no_buffers("/dev/video11"), text);
    assert_eq!(report("/dev/video11", &Error::NoBuffers), text);
    assert_eq!(
        report("/dev/video11", &Error::NoPlanes),
        "V4L2 reported a format with no planes"
    );
    assert_eq!(
        Operation::MapNothing.err("/dev/video11", "invalid data"),
        "/dev/video11: mmap: invalid data"
    );
}

use bytes::Bytes;
use moq_video::encode::params::{bitrate_control, coded_size, h264_level};
use moq_video::encode::pending::Pending;
use moq_video::frame::Size;
use moq_video::payload::{access_unit, join};
use moq_video::time::Duration;

/// The level has to clear the resolution, or bcm2835-codec refuses the format
/// outright. Spot-checked against Table A-1 rather than the driver's menu, so a
/// driver with a different menu ordering still gets a correct level.
#[test]
fn the_level_clears_the_resolution() {
    assert_eq!(h264_level(Size::new(320, 240)), 4); // 1.3
    assert_eq!(h264_level(Size::new(640, 480)), 8); // 3.0
    assert_eq!(h264_level(Size::new(1280, 720)), 9); // 3.1
    assert_eq!(h264_level(Size::new(1920, 1080)), 11); // 4.0
    assert_eq!(h264_level(Size::new(3840, 2160)), 15); // 5.1
}

#[test]
fn the_coded_buffer_is_bounded() {
    assert_eq!(coded_size(Size::new(160, 120)), 256 * 1024);
    assert_eq!(coded_size(Size::new(1920, 1080)), 1920 * 1080 / 2);
    assert_eq!(coded_size(Size::new(7680, 4320)), 4 * 1024 * 1024);
    assert_eq!(coded_size(Size::new(u32::MAX, u32::MAX)), 4 * 1024 * 1024);
}

#[test]
fn the_bitrate_fits_the_control() {
    assert_eq!(bitrate_control(2_500_000), 2_500_000);
    assert_eq!(bitrate_control(u64::MAX), i32::MAX);
}

/// A driver that pipelines answers a frame several buffers later, and only the
/// timestamp says which frame that was.
#[test]
fn an_access_unit_is_matched_to_the_frame_it_came_from() {
    let mut pending = Pending::default();
    for micros in [0, 33_000, 66_000] {
        pending.queued(Duration::from_micros(micros));
    }
    assert_eq!(pending.len(), 3);

    let payload = Bytes::from_static(&[1, 2, 3]);
    assert_eq!(
        pending.matched(Duration::from_micros(0), payload.clone()),
        Some(payload.clone())
    );
    assert_eq!(pending.len(), 2);

    // A frame the driver skipped goes with the one that overtook it, since an
    // encoder never comes back to it.
    assert!(pending.matched(Duration::from_micros(66_000), payload).is_some());
    assert!(pending.is_empty());
}

/// The case a bare count gets wrong: a coded buffer that answers no frame at
/// all, which is what `HEADER_MODE_SEPARATE` produces.
#[test]
fn separate_parameter_sets_join_the_next_access_unit() {
    let mut pending = Pending::default();
    pending.queued(Duration::from_micros(500));

    // SPS/PPS on their own, under whatever timestamp the driver left behind.
    assert_eq!(
        pending.matched(Duration::from_micros(0), Bytes::from_static(&[0, 0, 0, 1, 0x67])),
        None
    );
    // Still owed the frame, which is what stops a flush finishing early.
    assert_eq!(pending.len(), 1);

    let joined = pending
        .matched(Duration::from_micros(500), Bytes::from_static(&[0, 0, 0, 1, 0x65]))
        .unwrap();
    assert_eq!(&joined[..], &[0, 0, 0, 1, 0x67, 0, 0, 0, 1, 0x65]);
    assert!(pending.is_empty());
    // Carried once, not onto every access unit after it.
    let next = Bytes::from_static(&[0, 0, 0, 1, 0x41]);
    pending.queued(Duration::from_micros(533));
    assert_eq!(pending.matched(Duration::from_micros(533), next.clone()), Some(next));
}

/// A frame the driver flagged bad is owed by nobody, and forgetting it must not
/// shift the frames queued after it.
#[test]
fn a_dropped_frame_leaves_the_rest_matchable() {
    let mut pending = Pending::default();
    for micros in [10, 20, 30] {
        pending.queued(Duration::from_micros(micros));
    }

    pending.dropped(Duration::from_micros(10));
    assert_eq!(pending.len(), 2);
    // A timestamp that was never queued changes nothing.
    pending.dropped(Duration::from_micros(999));
    assert_eq!(pending.len(), 2);

    let payload = Bytes::from_static(&[9]);
    assert_eq!(
        pending.matched(Duration::from_micros(20), payload.clone()),
        Some(payload)
    );
    assert_eq!(pending.len(), 1);
}

/// The payload stops at the last non-zero byte, and a buffer the driver wrote
/// nothing into is not an access unit at all.
#[test]
fn padding_is_not_part_of_the_access_unit() {
    let buffer = [0, 0, 0, 1, 0x65, 0x88, 0, 0, 0, 0];
    assert_eq!(&access_unit(&buffer, 10)[..], &[0, 0, 0, 1, 0x65, 0x88]);
    assert!(access_unit(&[0; 8], 8).is_empty());
    // `bytesused` past the mapping is clamped rather than trusted.
    assert_eq!(access_unit(&buffer, 64).len(), 6);
    // And one short of it is believed.
    assert_eq!(&access_unit(&buffer, 5)[..], &[0, 0, 0, 1, 0x65]);
}

/// Two stray buffers in a row are both carried, in order, and nothing is lost
/// when a drain forgets the frames they might have answered.
#[test]
fn stray_bytes_wait_in_order() {
    let mut pending = Pending::default();
    pending.queued(Duration::from_micros(1));
    assert!(pending.has_room(2));
    assert!(pending.matched(Duration::from_micros(7), Bytes::from_static(&[1])).is_none());
    assert!(pending.matched(Duration::from_micros(8), Bytes::from_static(&[2])).is_none());
    pending.forget();
    assert!(pending.is_empty());
    pending.queued(Duration::from_micros(2));
    let unit = pending.matched(Duration::from_micros(2), Bytes::from_static(&[3])).unwrap();
    assert_eq!(&unit[..], &[1, 2, 3]);
    assert_eq!(&join(&[1, 2], &[3])[..], &[1, 2, 3]);
    assert!(!pending.has_room(usize::MAX));
}

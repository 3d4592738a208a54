use moq_video::error::Error;
use moq_video::frame::Size;
use moq_video::time::{Duration, Timestamp, MAX_TIMESTAMP};
use moq_video::v4l2::format::{Dir, Format, Plane, BUF_TYPE_CAPTURE, BUF_TYPE_OUTPUT};
use moq_video::v4l2::fourcc::{NV12, NV12M};
use moq_video::v4l2::queue::{
    clear, AllocStep, Allocation, Dequeue, DequeueError, Dequeued, PlaneUse, Queue, FLAG_ERROR,
    FLAG_LAST,
};

fn planes_of(count: usize) -> Format {
    Format {
        pixelformat: if count == 1 { NV12 } else { NV12M },
        size: Size::new(64, 32),
        planes: vec![
            Plane {
                stride: 64,
                sizeimage: 2048
            };
            count
        ],
    }
}

fn pool(dir: Dir, planes: usize, buffers: u32) -> Queue {
    let mut allocation = Allocation::new(dir, planes_of(planes), buffers).unwrap();
    loop {
        match allocation.next() {
            AllocStep::Query { .. } => allocation.queried(),
            AllocStep::MapPlane { index, plane } => {
                allocation.mapped(4096 + 10 * index + plane as u32)
            }
            AllocStep::Done => return allocation.finish(),
        }
    }
}

#[test]
fn buffers_are_mapped_one_plane_at_a_time() {
    let mut allocation = Allocation::new(Dir::Capture, planes_of(2), 2).unwrap();
    assert_eq!(allocation.next(), AllocStep::Query { index: 0 });
    allocation.queried();
    assert_eq!(
        allocation.next(),
        AllocStep::MapPlane { index: 0, plane: 0 }
    );
    allocation.mapped(100);
    assert_eq!(
        allocation.next(),
        AllocStep::MapPlane { index: 0, plane: 1 }
    );
    allocation.mapped(50);
    assert_eq!(allocation.next(), AllocStep::Query { index: 1 });
    allocation.queried();
    allocation.mapped(100);
    allocation.mapped(51);
    assert_eq!(allocation.next(), AllocStep::Done);

    let queue = allocation.finish();
    assert_eq!(queue.count(), 2);
    assert_eq!(queue.dir(), Dir::Capture);
    assert_eq!(queue.plane_len(0, 1), 50);
    assert_eq!(queue.plane_len(1, 1), 51);
    assert_eq!(queue.format().planes.len(), 2);
    assert!(!queue.streaming());
}

#[test]
fn a_driver_that_grants_no_buffers_is_refused() {
    let err = Allocation::new(Dir::Output, planes_of(1), 0).unwrap_err();
    assert_eq!(err, Error::NoBuffers);
    assert_eq!(err.message(), "REQBUFS: out of memory");
}

#[test]
fn free_buffers_are_taken_in_the_order_they_came_back() {
    let mut queue = pool(Dir::Output, 1, 3);
    assert_eq!(queue.take_free(), Some(0));
    assert_eq!(queue.take_free(), Some(1));
    queue.reclaim(1);
    queue.reclaim(0);
    assert_eq!(queue.take_free(), Some(2));
    assert_eq!(queue.take_free(), Some(1));
    assert_eq!(queue.take_free(), Some(0));
    assert_eq!(queue.take_free(), None);
    assert!(!queue.streaming());
    queue.stream_on();
    assert!(queue.streaming());
}

#[test]
fn a_submission_says_what_is_used_and_mapped() {
    let queue = pool(Dir::Output, 2, 2);
    let submission = queue.queue(1, &[7, 8], Duration::from_micros(2_000_005));
    assert_eq!(submission.buf_type, BUF_TYPE_OUTPUT);
    assert_eq!(submission.index, 1);
    assert_eq!(submission.length, 2);
    assert_eq!(
        submission.planes,
        [
            PlaneUse {
                bytesused: 7,
                length: 4106
            },
            PlaneUse {
                bytesused: 8,
                length: 4107
            },
            PlaneUse {
                bytesused: 0,
                length: 0
            },
        ]
    );
    assert_eq!((submission.sec, submission.usec), (2, 5));

    // A list shorter than the planes leaves the rest alone.
    let short = pool(Dir::Capture, 2, 1).queue(0, &[0], Duration::zero());
    assert_eq!(short.buf_type, BUF_TYPE_CAPTURE);
    assert_eq!(short.length, 2);
    assert_eq!(
        short.planes[1],
        PlaneUse {
            bytesused: 0,
            length: 0
        }
    );
}

#[test]
fn a_time_survives_the_driver() {
    let queue = pool(Dir::Output, 1, 1);
    let sent = Duration::from_micros(86_400_123_456);
    let submission = queue.queue(0, &[1], sent);
    let back = Dequeued::new(0, [0; 3], submission.sec, submission.usec, 0);
    assert_eq!(back.timestamp, sent);
    assert_eq!(back.timestamp.as_micros(), 86_400_123_456);
    // A driver may leave more than a second in the microseconds.
    let odd = Dequeued::new(0, [0; 3], 1, 1_500_000, 0);
    assert_eq!(odd.timestamp, Duration::from_micros(2_500_000));
}

#[test]
fn flags_say_what_a_buffer_is() {
    let plain = Dequeued::new(0, [0; 3], 0, 0, 0);
    assert!(!plain.failed() && !plain.last());
    assert!(Dequeued::new(0, [0; 3], 0, 0, FLAG_ERROR).failed());
    assert!(Dequeued::new(0, [0; 3], 0, 0, FLAG_LAST | FLAG_ERROR).last());
}

#[test]
fn an_empty_queue_is_an_answer() {
    assert!(matches!(
        Dequeue::refused(DequeueError::WouldBlock),
        Some(Dequeue::Empty)
    ));
    assert!(matches!(
        Dequeue::refused(DequeueError::BrokenPipe),
        Some(Dequeue::Ended)
    ));
    assert!(Dequeue::refused(DequeueError::Other).is_none());
    assert!(Dequeue::Ended.buffer().is_none());
    let buffer = Dequeued::new(3, [0; 3], 0, 0, 0);
    assert_eq!(Dequeue::Buffer(buffer).buffer().unwrap().index, 3);
}

#[test]
fn a_time_too_far_out_is_refused() {
    assert_eq!(
        Timestamp::from_micros(MAX_TIMESTAMP).unwrap().as_micros(),
        MAX_TIMESTAMP as u128
    );
    let err = Timestamp::from_micros(MAX_TIMESTAMP + 1).unwrap_err();
    assert_eq!(
        err,
        Error::TimestampRange {
            micros: MAX_TIMESTAMP + 1
        }
    );
    assert_eq!(
        err.message(),
        "a time of 4611686018427387904 microseconds is too far out to send"
    );
}

#[test]
fn a_mapped_plane_is_cleared_whole() {
    let mut plane = [7u8; 9];
    clear(&mut plane);
    assert_eq!(plane, [0; 9]);
    clear(&mut []);
}

//! A queue's pool of mapped buffers, and which of them are ours to fill.

use std::collections::VecDeque;

use vstd::multiset::Multiset;
use vstd::prelude::*;

use super::format::{Dir, Format, MAX_PLANES};
use crate::error::Error;
use crate::time::{lemma_duration_is_its_length, Duration};

verus! {

/// `V4L2_BUF_FLAG_ERROR`: the driver gave up on what is in the buffer.
pub const FLAG_ERROR: u32 = 0x40;

/// `V4L2_BUF_FLAG_LAST`: the buffer is the last of a sequence.
pub const FLAG_LAST: u32 = 0x10_0000;

/// A buffer the driver has handed back.
#[derive(Clone, Copy, Debug)]
pub struct Dequeued {
    /// Which buffer of the pool it is.
    pub index: u32,
    /// Bytes the driver wrote, per plane. Zero on an OUTPUT buffer, which the
    /// driver only read.
    pub bytesused: [u32; 3],
    /// The timestamp the matching OUTPUT buffer carried, copied through by the
    /// driver.
    pub timestamp: Duration,
    /// The `V4L2_BUF_FLAG_*` bits the driver set.
    pub flags: u32,
}

impl Dequeued {
    pub open spec fn spec_failed(self) -> bool {
        self.flags & FLAG_ERROR != 0
    }

    pub open spec fn spec_last(self) -> bool {
        self.flags & FLAG_LAST != 0
    }

    /// Read the fields of a dequeued `v4l2_buffer`.
    pub fn new(
        index: u32,
        bytesused: [u32; 3],
        sec: u64,
        usec: u32,
        flags: u32,
    ) -> (buffer: Dequeued)
        requires
            1_000 * usec <= u32::MAX,
            sec + usec / 1_000_000 <= u64::MAX,
        ensures
            buffer.index == index,
            buffer.bytesused == bytesused,
            buffer.flags == flags,
            buffer.timestamp.wf(),
            buffer.timestamp.total() == sec * 1_000_000 + usec,
    {
        Dequeued { index, bytesused, timestamp: Duration::from_timeval(sec, usec), flags }
    }

    /// Whether the driver gave up on what is in the buffer.
    pub fn failed(&self) -> (failed: bool)
        ensures
            failed == self.spec_failed(),
    {
        self.flags & FLAG_ERROR != 0
    }

    /// Whether the buffer is the last of a sequence.
    pub fn last(&self) -> (last: bool)
        ensures
            last == self.spec_last(),
    {
        self.flags & FLAG_LAST != 0
    }
}

/// What a `VIDIOC_DQBUF` came to.
#[derive(Clone, Copy, Debug)]
pub enum Dequeue {
    /// A buffer the driver is done with.
    Buffer(Dequeued),
    /// Nothing is ready.
    Empty,
    /// The sequence is over: the buffer flagged last has already been taken.
    Ended,
}

/// Why a `VIDIOC_DQBUF` failed, as far as it matters here.
#[derive(Clone, Copy, Debug, PartialEq, Eq, Structural)]
pub enum DequeueError {
    /// `EAGAIN`: nothing is ready.
    WouldBlock,
    /// `EPIPE`: past the last buffer of a sequence.
    BrokenPipe,
    /// Anything else, which is a failure.
    Other,
}

impl Dequeue {
    /// What a failed `VIDIOC_DQBUF` means, or `None` when it is a real failure.
    ///
    /// An empty queue is the answer on a non-blocking descriptor rather than a
    /// failure, and so is the end of a sequence.
    pub fn refused(error: DequeueError) -> (r: Option<Dequeue>)
        ensures
            r == match error {
                DequeueError::WouldBlock => Some(Dequeue::Empty),
                DequeueError::BrokenPipe => Some(Dequeue::Ended),
                DequeueError::Other => None,
            },
    {
        match error {
            DequeueError::WouldBlock => Some(Dequeue::Empty),
            DequeueError::BrokenPipe => Some(Dequeue::Ended),
            DequeueError::Other => None,
        }
    }

    /// The buffer, if there is one.
    pub fn buffer(self) -> (buffer: Option<Dequeued>)
        ensures
            buffer == match self {
                Dequeue::Buffer(buffer) => Some(buffer),
                _ => None,
            },
    {
        match self {
            Dequeue::Buffer(buffer) => Some(buffer),
            Dequeue::Empty | Dequeue::Ended => None,
        }
    }
}

/// What a `v4l2_plane` of a queued buffer says.
#[derive(Clone, Copy, Debug, PartialEq, Eq, Structural)]
pub struct PlaneUse {
    /// Bytes of it that matter.
    pub bytesused: u32,
    /// Bytes of it that are mapped.
    pub length: u32,
}

/// The fields of the `v4l2_buffer` a `VIDIOC_QBUF` takes.
#[derive(Clone, Copy, Debug)]
pub struct Submission {
    pub buf_type: u32,
    pub index: u32,
    /// One entry per plane, zeroed past the ones the buffer has.
    pub planes: [PlaneUse; 3],
    /// On a multi-planar queue, the length of the plane array.
    pub length: u32,
    pub sec: u64,
    pub usec: u32,
}

impl Submission {
    /// Hands over buffer `index` of `queue`, `bytesused` bytes per plane, stamped
    /// with `timestamp`.
    pub open spec fn submits(
        self,
        queue: QueueView,
        index: u32,
        bytesused: Seq<u32>,
        timestamp: Duration,
    ) -> bool {
        let lengths = queue.lengths[index as int];
        &&& self.buf_type == match queue.dir {
            Dir::Output => super::format::BUF_TYPE_OUTPUT,
            Dir::Capture => super::format::BUF_TYPE_CAPTURE,
        }
        &&& self.index == index
        &&& self.length == lengths.len()
        &&& forall|plane: int|
            0 <= plane < MAX_PLANES ==> #[trigger] self.planes@[plane] == plane_use(
                lengths,
                bytesused,
                plane,
            )
        &&& self.sec == timestamp.total() / 1_000_000
        &&& self.usec == timestamp.total() % 1_000_000
    }
}

/// A queue's pool of mapped buffers.
#[derive(Debug)]
pub struct Queue {
    dir: Dir,
    format: Format,
    /// The mapped length of each plane of each buffer.
    buffers: Vec<Vec<u32>>,
    /// Buffers the driver is done with, so userspace may write them again.
    free: VecDeque<u32>,
    streaming: bool,
}

/// What a [`Queue`] keeps track of.
#[verifier::ext_equal]
pub struct QueueView {
    pub dir: Dir,
    pub format: Format,
    /// The mapped length of each plane of each buffer.
    pub lengths: Seq<Seq<u32>>,
    /// Buffers that are ours to fill, the next to be taken first.
    pub free: Seq<u32>,
    pub streaming: bool,
}

impl QueueView {
    /// Every buffer has a plane for each the format names, and only buffers of
    /// the pool are free.
    pub open spec fn wf(self) -> bool {
        &&& 1 <= self.format.planes@.len() <= MAX_PLANES
        &&& forall|i: int|
            0 <= i < self.lengths.len() ==> (#[trigger] self.lengths[i]).len()
                == self.format.planes@.len()
        &&& forall|i: int| 0 <= i < self.free.len() ==> self.owns(#[trigger] self.free[i])
    }

    /// Whether the pool has a buffer of this index.
    pub open spec fn owns(self, index: u32) -> bool {
        index < self.lengths.len()
    }

    pub open spec fn with_free(self, free: Seq<u32>) -> QueueView {
        QueueView { free, ..self }
    }

    /// The pool after the next free buffer is taken, if there is one.
    pub open spec fn taken(self) -> QueueView {
        if self.free.len() == 0 {
            self
        } else {
            self.with_free(self.free.drop_first())
        }
    }

    pub open spec fn reclaimed(self, index: u32) -> QueueView {
        self.with_free(self.free.push(index))
    }

    pub open spec fn started(self) -> QueueView {
        QueueView { streaming: true, ..self }
    }
}

/// The plane entries for a buffer: what is used and mapped of each plane both
/// lists name, and nothing past them.
pub open spec fn plane_use(lengths: Seq<u32>, bytesused: Seq<u32>, plane: int) -> PlaneUse {
    if plane < lengths.len() && plane < bytesused.len() {
        PlaneUse { bytesused: bytesused[plane], length: lengths[plane] }
    } else {
        PlaneUse { bytesused: 0, length: 0 }
    }
}

impl Queue {
    pub closed spec fn view(&self) -> QueueView {
        QueueView {
            dir: self.dir,
            format: self.format,
            lengths: self.buffers@.map_values(|planes: Vec<u32>| planes@),
            free: self.free@,
            streaming: self.streaming,
        }
    }

    /// The format this queue was allocated for.
    pub fn format(&self) -> (format: &Format)
        ensures
            *format == self@.format,
    {
        &self.format
    }

    /// Which queue of the device this is.
    pub fn dir(&self) -> (dir: Dir)
        ensures
            dir == self@.dir,
    {
        self.dir
    }

    /// How many buffers the pool has.
    pub fn count(&self) -> (count: usize)
        ensures
            count == self@.lengths.len(),
    {
        self.buffers.len()
    }

    /// The mapped length of one plane of one buffer.
    pub fn plane_len(&self, index: u32, plane: usize) -> (len: u32)
        requires
            index < self@.lengths.len(),
            plane < self@.lengths[index as int].len(),
        ensures
            len == self@.lengths[index as int][plane as int],
    {
        self.buffers[index as usize][plane]
    }

    /// Take a buffer userspace may write, or `None` while the driver holds them
    /// all.
    pub fn take_free(&mut self) -> (index: Option<u32>)
        ensures
            final(self)@ == old(self)@.taken(),
            index == if old(self)@.free.len() == 0 {
                None
            } else {
                Some(old(self)@.free.first())
            },
    {
        let index = self.free.pop_front();
        assert(old(self)@.free.len() > 0 ==> self@.free =~= old(self)@.free.drop_first());
        index
    }

    /// Hand a dequeued buffer back to the free list.
    pub fn reclaim(&mut self, index: u32)
        ensures
            final(self)@ == old(self)@.reclaimed(index),
    {
        self.free.push_back(index);
    }

    /// The queue has been started, which the driver only accepts once its
    /// buffers are allocated.
    pub fn stream_on(&mut self)
        ensures
            final(self)@ == old(self)@.started(),
    {
        self.streaming = true;
    }

    /// Whether the queue has been started.
    pub fn streaming(&self) -> (streaming: bool)
        ensures
            streaming == self@.streaming,
    {
        self.streaming
    }

    /// What to hand the driver for a buffer, `bytesused` bytes per plane, stamped
    /// with `timestamp`.
    ///
    /// An M2M driver copies the OUTPUT timestamp onto the CAPTURE buffer its work
    /// comes out on, so this is how a frame's presentation time survives a codec
    /// that pipelines.
    pub fn queue(&self, index: u32, bytesused: &[u32], timestamp: Duration) -> (r: Submission)
        requires
            index < self@.lengths.len(),
            self@.lengths[index as int].len() <= u32::MAX,
            timestamp.wf(),
        ensures
            r.submits(self@, index, bytesused@, timestamp),
    {
        let lengths = &self.buffers[index as usize];
        assert(lengths@ == self@.lengths[index as int]);
        let mut planes: [PlaneUse; 3] = [PlaneUse { bytesused: 0, length: 0 }; 3];
        let mut plane: usize = 0;
        while plane < MAX_PLANES && plane < lengths.len() && plane < bytesused.len()
            invariant
                plane <= MAX_PLANES,
                plane <= lengths@.len(),
                plane <= bytesused@.len(),
                forall|i: int|
                    0 <= i < plane ==> #[trigger] planes@[i] == plane_use(
                        lengths@,
                        bytesused@,
                        i,
                    ),
                forall|i: int|
                    plane <= i < MAX_PLANES ==> #[trigger] planes@[i] == (PlaneUse {
                        bytesused: 0,
                        length: 0,
                    }),
            decreases MAX_PLANES - plane,
        {
            planes[plane] = PlaneUse { bytesused: bytesused[plane], length: lengths[plane] };
            plane = plane + 1;
        }
        Submission {
            buf_type: self.dir.buf_type(),
            index,
            planes,
            length: lengths.len() as u32,
            sec: timestamp.as_secs(),
            usec: timestamp.subsec_micros(),
        }
    }
}

/// What to do next to allocate a queue's buffers.
#[derive(Clone, Copy, Debug, PartialEq, Eq, Structural)]
pub enum AllocStep {
    /// Ask `VIDIOC_QUERYBUF` about a buffer.
    Query { index: u32 },
    /// Map one plane of the buffer asked about, and [`clear`] it.
    MapPlane { index: u32, plane: usize },
    /// Every plane of every buffer is mapped.
    Done,
}

/// Zero a plane that has just been mapped.
pub fn clear(plane: &mut [u8])
    ensures
        final(plane)@ == Seq::new(old(plane)@.len(), |i: int| 0u8),
{
    let ghost before = plane@;
    let len = plane.len();
    let mut at: usize = 0;
    while at < len
        invariant
            at <= len,
            len == plane@.len(),
            len == before.len(),
            forall|i: int| 0 <= i < at ==> plane@[i] == 0,
        decreases len - at,
    {
        plane[at] = 0;
        at = at + 1;
    }
    assert(plane@ =~= Seq::new(before.len(), |i: int| 0u8));
}

/// Buffers being mapped, one plane at a time.
///
/// Every buffer is zeroed once as it is mapped rather than before each frame.
/// Only the visible region is ever written afterwards, so the alignment padding
/// a driver reads past the picture keeps whatever it is left with, and at 1080p a
/// per-frame memset of the padding's own buffer costs 3 MB of writes a Raspberry
/// Pi does not have to spare.
#[derive(Debug)]
pub struct Allocation {
    dir: Dir,
    format: Format,
    count: u32,
    /// Buffers whose every plane is mapped.
    done: Vec<Vec<u32>>,
    /// The planes mapped so far of the buffer after those, once it has been asked
    /// about.
    current: Option<Vec<u32>>,
}

/// How far an [`Allocation`] has come.
#[verifier::ext_equal]
pub struct AllocationView {
    pub dir: Dir,
    pub format: Format,
    pub count: u32,
    pub done: Seq<Seq<u32>>,
    pub current: Option<Seq<u32>>,
}

impl AllocationView {
    /// What comes next.
    pub open spec fn next(self) -> AllocStep {
        if self.done.len() == self.count {
            AllocStep::Done
        } else {
            match self.current {
                None => AllocStep::Query { index: self.done.len() as u32 },
                Some(planes) => AllocStep::MapPlane {
                    index: self.done.len() as u32,
                    plane: planes.len() as usize,
                },
            }
        }
    }

    /// The buffer in progress is set aside once its last plane is mapped.
    pub open spec fn settled(self) -> AllocationView {
        if self.current is Some && self.current->0.len() == self.format.planes@.len() {
            AllocationView { done: self.done.push(self.current->0), current: None, ..self }
        } else {
            self
        }
    }

    /// The allocation once the driver has answered about the next buffer.
    pub open spec fn queried(self) -> AllocationView {
        AllocationView { current: Some(Seq::empty()), ..self }.settled()
    }

    /// The allocation once the next plane is mapped.
    pub open spec fn mapped(self, length: u32) -> AllocationView {
        AllocationView { current: Some(self.current->0.push(length)), ..self }.settled()
    }

    /// The queue that comes of it, every buffer of it ours to fill.
    pub open spec fn finished(self) -> QueueView {
        QueueView {
            dir: self.dir,
            format: self.format,
            lengths: self.done,
            free: indices(self.count as nat),
            streaming: false,
        }
    }

    pub open spec fn wf(self) -> bool {
        &&& 1 <= self.format.planes@.len() <= MAX_PLANES
        &&& self.done.len() <= self.count
        &&& self.current is Some ==> {
            &&& self.done.len() < self.count
            &&& self.current->0.len() < self.format.planes@.len()
        }
        &&& forall|i: int|
            0 <= i < self.done.len() ==> (#[trigger] self.done[i]).len()
                == self.format.planes@.len()
    }
}

/// The first `count` buffer indices, in order.
pub open spec fn indices(count: nat) -> Seq<u32> {
    Seq::new(count, |i: int| i as u32)
}

impl Allocation {
    pub closed spec fn view(&self) -> AllocationView {
        AllocationView {
            dir: self.dir,
            format: self.format,
            count: self.count,
            done: self.done@.map_values(|planes: Vec<u32>| planes@),
            current: match self.current {
                Some(planes) => Some(planes@),
                None => None,
            },
        }
    }

    /// Start mapping the buffers a `VIDIOC_REQBUFS` granted, which may be fewer
    /// or more than were asked for, and is a failure when it is none.
    pub fn new(dir: Dir, format: Format, granted: u32) -> (r: Result<Allocation, Error>)
        requires
            1 <= format.planes@.len() <= MAX_PLANES,
        ensures
            match r {
                Ok(allocation) => {
                    &&& granted > 0
                    &&& allocation@ == (AllocationView {
                        dir,
                        format,
                        count: granted,
                        done: Seq::empty(),
                        current: None,
                    })
                    &&& allocation@.wf()
                },
                Err(err) => granted == 0 && err == Error::NoBuffers,
            },
    {
        if granted == 0 {
            return Err(Error::NoBuffers);
        }
        let allocation = Allocation { dir, format, count: granted, done: Vec::new(), current: None };
        assert(allocation@.done =~= Seq::empty());
        Ok(allocation)
    }

    /// What to do next.
    pub fn next(&self) -> (step: AllocStep)
        requires
            self@.wf(),
        ensures
            step == self@.next(),
    {
        assert(self.done.len() == self@.done.len());
        let index = self.done.len() as u32;
        if index == self.count {
            AllocStep::Done
        } else {
            match &self.current {
                None => AllocStep::Query { index },
                Some(planes) => AllocStep::MapPlane { index, plane: planes.len() },
            }
        }
    }

    fn settle(&mut self)
        ensures
            final(self)@ == old(self)@.settled(),
    {
        match self.current.take() {
            None => {},
            Some(planes) => {
                if planes.len() == self.format.planes.len() {
                    self.done.push(planes);
                    assert(self@.done =~= old(self)@.done.push(old(self)@.current->0));
                } else {
                    self.current = Some(planes);
                }
            },
        }
    }

    /// The driver has answered about the next buffer.
    pub fn queried(&mut self)
        requires
            old(self)@.wf(),
            old(self)@.next() is Query,
        ensures
            final(self)@ == old(self)@.queried(),
            final(self)@.wf(),
    {
        self.current = Some(Vec::new());
        assert(self@ =~= AllocationView { current: Some(Seq::empty()), ..old(self)@ });
        self.settle();
    }

    /// The next plane is mapped, `length` bytes of it.
    pub fn mapped(&mut self, length: u32)
        requires
            old(self)@.wf(),
            old(self)@.next() is MapPlane,
        ensures
            final(self)@ == old(self)@.mapped(length),
            final(self)@.wf(),
    {
        let ghost before = self@;
        if let Some(mut planes) = self.current.take() {
            planes.push(length);
            self.current = Some(planes);
        }
        assert(self@ =~= AllocationView {
            current: Some(before.current->0.push(length)),
            ..before
        });
        self.settle();
    }

    /// The queue, every buffer of it ours to fill.
    pub fn finish(self) -> (queue: Queue)
        requires
            self@.wf(),
            self@.next() is Done,
        ensures
            queue@ == self@.finished(),
            queue@.wf(),
    {
        let mut free: VecDeque<u32> = VecDeque::new();
        let mut index: u32 = 0;
        while index < self.count
            invariant
                index <= self.count,
                free@ == indices(index as nat),
            decreases self.count - index,
        {
            free.push_back(index);
            index = index + 1;
            assert(free@ =~= indices(index as nat));
        }
        Queue { dir: self.dir, format: self.format, buffers: self.done, free, streaming: false }
    }
}

/// The buffers someone has left once one is given back, if one is, and another handed
/// over, if one is.
pub open spec fn passed(
    held: Multiset<u32>,
    returned: Option<u32>,
    queued: Option<u32>,
) -> Multiset<u32> {
    let left = match returned {
        Some(index) => held.remove(index),
        None => held,
    };
    match queued {
        Some(index) => left.insert(index),
        None => left,
    }
}

/// Taking a buffer moves the first one off the free list.
pub proof fn lemma_taken(queue: QueueView)
    requires
        queue.free.len() > 0,
    ensures
        queue.free.to_multiset() == queue.taken().free.to_multiset().insert(queue.free.first()),
{
    broadcast use vstd::seq_lib::group_to_multiset_ensures;

    let free = queue.free;
    assert(free.remove(0) =~= free.drop_first());
    vstd::seq_lib::to_multiset_remove(free, 0);
    assert(free.to_multiset() =~= free.drop_first().to_multiset().insert(free.first()));
}

/// Reclaiming a buffer puts it on the free list.
pub proof fn lemma_reclaimed(queue: QueueView, index: u32)
    ensures
        queue.reclaimed(index).free.to_multiset() == queue.free.to_multiset().insert(index),
{
    broadcast use vstd::seq_lib::group_to_multiset_ensures;

}

/// A presentation time survives a trip through a driver: put on a buffer as a
/// `timeval` and read back off the one its work came out on, it is unchanged.
pub proof fn law_a_timestamp_survives_the_driver(
    queue: QueueView,
    submission: Submission,
    index: u32,
    bytesused: Seq<u32>,
    timestamp: Duration,
    returned: Dequeued,
)
    requires
        timestamp.wf(),
        submission.submits(queue, index, bytesused, timestamp),
        returned.timestamp.wf(),
        returned.timestamp.total() == submission.sec * 1_000_000 + submission.usec,
    ensures
        returned.timestamp == timestamp,
{
    lemma_duration_is_its_length(returned.timestamp, timestamp);
}

/// What is handed to the driver says which queue and buffer it is, and of each plane of the
/// buffer how much is used and how much is mapped, for as many planes as were told. What
/// is past them is nothing. The time goes along in full.
pub proof fn law_a_submission_says_what_it_holds(
    queue: QueueView,
    submission: Submission,
    index: u32,
    bytesused: Seq<u32>,
    timestamp: Duration,
)
    requires
        submission.submits(queue, index, bytesused, timestamp),
    ensures
        submission.buf_type == if queue.dir is Output {
            10u32
        } else {
            9
        },
        submission.index == index,
        submission.length == queue.lengths[index as int].len(),
        submission.sec * 1_000_000 + submission.usec == timestamp.total(),
        submission.usec < 1_000_000,
        forall|plane: int|
            0 <= plane < 3 ==> {
                let at = #[trigger] submission.planes@[plane];
                if plane < bytesused.len() && plane < queue.lengths[index as int].len() {
                    &&& at.bytesused == bytesused[plane]
                    &&& at.length == queue.lengths[index as int][plane]
                } else {
                    at.bytesused == 0 && at.length == 0
                }
            },
{
}

/// A flag is what its bit says, whatever the others are.
pub proof fn law_flags_are_bits(buffer: Dequeued)
    ensures
        buffer.spec_failed() <==> buffer.flags & 0x40 != 0,
        buffer.spec_last() <==> buffer.flags & 0x10_0000 != 0,
{
}

/// The lengths mapped so far, buffer by buffer, the one in progress last.
pub open spec fn mapped_so_far(allocation: AllocationView) -> Seq<Seq<u32>> {
    match allocation.current {
        Some(planes) => allocation.done.push(planes),
        None => allocation.done,
    }
}

/// Buffers are mapped in order, every plane of each in order, and what is mapped of each is
/// kept: a buffer is asked about and then mapped plane by plane, as many as the format has,
/// until there are as many buffers as were granted.
pub proof fn law_every_plane_is_mapped_in_order(allocation: AllocationView, length: u32)
    requires
        allocation.wf(),
    ensures
        ({
            let (done, planes) = (allocation.done.len(), allocation.format.planes@.len());
            match allocation.next() {
                AllocStep::Done => done == allocation.count && allocation.current is None,
                AllocStep::Query { index } => {
                    let next = allocation.queried();
                    &&& done < allocation.count
                    &&& index == done
                    &&& allocation.current is None
                    &&& next.next() == (AllocStep::MapPlane { index, plane: 0 })
                    &&& next.done == allocation.done
                },
                AllocStep::MapPlane { index, plane } => {
                    let next = allocation.mapped(length);
                    let before = mapped_so_far(allocation);
                    &&& done < allocation.count
                    &&& index == done
                    &&& before.len() == done + 1
                    &&& before.last().len() == plane
                    &&& plane < planes
                    &&& mapped_so_far(next) == before.update(done as int, before.last().push(length))
                    &&& plane + 1 < planes ==> next.next() == (AllocStep::MapPlane {
                        index,
                        plane: (plane + 1) as usize,
                    })
                    &&& plane + 1 == planes && done + 1 < allocation.count ==> next.next() == (
                    AllocStep::Query { index: (index + 1) as u32 })
                    &&& plane + 1 == planes && done + 1 == allocation.count ==> next.next() is Done
                },
            }
        }),
        allocation.queried().count == allocation.count,
        allocation.queried().dir == allocation.dir,
        allocation.queried().format == allocation.format,
        allocation.mapped(length).count == allocation.count,
        allocation.mapped(length).dir == allocation.dir,
        allocation.mapped(length).format == allocation.format,
{
    if allocation.next() is MapPlane {
        let (before, next) = (mapped_so_far(allocation), allocation.mapped(length));
        assert(mapped_so_far(next) =~= before.update(
            allocation.done.len() as int,
            before.last().push(length),
        ));
    }
}

/// A queue starts out with every buffer that was mapped, all of them free, first to last,
/// and not streaming.
pub proof fn law_a_new_queue_is_all_ours(allocation: AllocationView)
    requires
        allocation.wf(),
        allocation.next() is Done,
    ensures
        ({
            let queue = allocation.finished();
            &&& queue.dir == allocation.dir
            &&& queue.format == allocation.format
            &&& queue.lengths == mapped_so_far(allocation)
            &&& queue.lengths.len() == allocation.count
            &&& queue.free.len() == allocation.count
            &&& forall|i: int| 0 <= i < queue.free.len() ==> (#[trigger] queue.free[i]) == i
            &&& !queue.streaming
        }),
{
}

/// Buffers are taken from the front of the line and given back at its end, so each waits
/// its turn, and nothing else of the queue changes.
pub proof fn law_buffers_wait_their_turn(queue: QueueView, index: u32)
    ensures
        queue.free.len() > 0 ==> queue.taken() == (QueueView {
            free: queue.free.subrange(1, queue.free.len() as int),
            ..queue
        }),
        queue.free.len() == 0 ==> queue.taken() == queue,
        queue.reclaimed(index) == (QueueView { free: queue.free.push(index), ..queue }),
        queue.started() == (QueueView { streaming: true, ..queue }),
{
    assert(queue.free.len() > 0 ==> queue.taken().free =~= queue.free.subrange(
        1,
        queue.free.len() as int,
    ));
}

} // verus!

//! Which frame each coded buffer answers, and what to do with one that answers
//! none.
//!
//! The driver copies an OUTPUT buffer's timestamp onto the CAPTURE buffer its
//! work came out on, so the timestamp is the only thing tying an access unit
//! back to a frame. Counting the two against each other does not work: under
//! `V4L2_MPEG_VIDEO_HEADER_MODE_SEPARATE` the first coded buffer is SPS/PPS
//! alone, answering no frame, and counting it would leave the encoder reporting
//! itself drained one access unit early at every group boundary while the
//! straggler surfaced in the next group ahead of its keyframe.

use std::collections::VecDeque;

use bytes::Bytes;
use vstd::prelude::*;

use crate::payload::{bytes_of, join};
use crate::time::Duration;

verus! {

/// Frames the driver has taken and not yet answered with an access unit.
#[derive(Debug)]
pub struct Pending {
    /// Timestamps queued and not yet answered, in the order they were queued.
    frames: VecDeque<Duration>,
    /// Bytes from a coded buffer that answered no frame, waiting for the access
    /// unit to go in front of.
    header: Option<Bytes>,
}

/// What a [`Pending`] knows.
#[verifier::ext_equal]
pub struct PendingView {
    /// The unanswered frames, oldest first.
    pub frames: Seq<Duration>,
    /// Bytes that answered no frame, waiting to go in front of the next access
    /// unit.
    pub header: Seq<u8>,
}

impl PendingView {
    pub open spec fn empty() -> PendingView {
        PendingView { frames: Seq::empty(), header: Seq::empty() }
    }

    pub open spec fn queued(self, timestamp: Duration) -> PendingView {
        PendingView { frames: self.frames.push(timestamp), header: self.header }
    }

    /// The frames left once the first one stamped `timestamp` is answered. The
    /// frames ahead of it go too: an encoder does not go back, so nothing will
    /// answer them now.
    pub open spec fn answered(self, timestamp: Duration) -> Seq<Duration> {
        match self.frames.index_of_first(timestamp) {
            Some(at) => self.frames.subrange(at + 1, self.frames.len() as int),
            None => self.frames,
        }
    }

    pub open spec fn matched(self, timestamp: Duration, payload: Seq<u8>) -> (
        PendingView,
        Option<Seq<u8>>,
    ) {
        if self.frames.contains(timestamp) {
            (
                PendingView { frames: self.answered(timestamp), header: Seq::empty() },
                Some(self.header + payload),
            )
        } else {
            (PendingView { frames: self.frames, header: self.header + payload }, None)
        }
    }

    pub open spec fn dropped(self, timestamp: Duration) -> PendingView {
        PendingView { frames: self.answered(timestamp), header: self.header }
    }

    pub open spec fn forgotten(self) -> PendingView {
        PendingView { frames: Seq::empty(), header: self.header }
    }
}

impl Default for Pending {
    fn default() -> (pending: Self)
        ensures
            pending@ == PendingView::empty(),
    {
        Pending { frames: VecDeque::new(), header: None }
    }
}

impl Pending {
    pub closed spec fn view(&self) -> PendingView {
        PendingView {
            frames: self.frames@,
            header: match self.header {
                Some(header) => bytes_of(header),
                None => Seq::empty(),
            },
        }
    }

    /// Record a frame handed to the driver.
    pub fn queued(&mut self, timestamp: Duration)
        ensures
            final(self)@ == old(self)@.queued(timestamp),
    {
        self.frames.push_back(timestamp);
    }

    /// How many frames the driver has taken and not answered.
    pub fn len(&self) -> (len: usize)
        ensures
            len == self@.frames.len(),
    {
        self.frames.len()
    }

    pub fn is_empty(&self) -> (empty: bool)
        ensures
            empty == (self@.frames.len() == 0),
    {
        self.frames.len() == 0
    }

    /// Whether an access unit of `len` bytes can still be put behind the bytes
    /// waiting for one.
    pub fn has_room(&self, len: usize) -> (room: bool)
        ensures
            room == (self@.header.len() + len <= isize::MAX),
    {
        let held = match &self.header {
            Some(header) => header.len(),
            None => 0,
        };
        held <= isize::MAX as usize && len <= isize::MAX as usize - held
    }

    /// Where the first frame stamped `timestamp` is in line.
    fn position(&self, timestamp: Duration) -> (at: Option<usize>)
        ensures
            match at {
                Some(at) => self@.frames.index_of_first(timestamp) == Some(at as int) && at
                    < self@.frames.len() && self@.frames.contains(timestamp),
                None => !self@.frames.contains(timestamp),
            },
    {
        let mut at: usize = 0;
        while at < self.frames.len()
            invariant
                at <= self.frames@.len(),
                forall|i: int| 0 <= i < at ==> self.frames@[i] != timestamp,
            decreases self.frames@.len() - at,
        {
            if self.frames[at] == timestamp {
                proof {
                    assert(self@.frames[at as int] == timestamp);
                    self@.frames.index_of_first_ensures(timestamp);
                }
                return Some(at);
            }
            at = at + 1;
        }
        None
    }

    /// Drop the oldest `count` frames.
    fn skip(&mut self, count: usize)
        requires
            count <= old(self)@.frames.len(),
        ensures
            final(self)@.frames == old(self)@.frames.subrange(
                count as int,
                old(self)@.frames.len() as int,
            ),
            final(self)@.header == old(self)@.header,
    {
        let mut left: usize = count;
        while left > 0
            invariant
                left <= count <= old(self)@.frames.len(),
                self@.header == old(self)@.header,
                self@.frames == old(self)@.frames.subrange(
                    count - left,
                    old(self)@.frames.len() as int,
                ),
            decreases left,
        {
            self.frames.pop_front();
            left = left - 1;
            assert(self@.frames =~= old(self)@.frames.subrange(
                count - left,
                old(self)@.frames.len() as int,
            ));
        }
    }

    /// Put the bytes that are waiting, if any, in front of `payload`.
    fn prefixed(&mut self, payload: Bytes) -> (whole: Bytes)
        requires
            old(self)@.header.len() + bytes_of(payload).len() <= isize::MAX,
        ensures
            bytes_of(whole) == old(self)@.header + bytes_of(payload),
            final(self)@.frames == old(self)@.frames,
            final(self)@.header == Seq::<u8>::empty(),
    {
        match self.header.take() {
            Some(header) => join(&*header, &*payload),
            None => {
                assert(Seq::<u8>::empty() + bytes_of(payload) =~= bytes_of(payload));
                payload
            },
        }
    }

    /// The access unit a coded buffer holds, or `None` when it answers no frame.
    ///
    /// Parameter sets that arrived on their own go in front of the next access
    /// unit instead of being published as a frame of their own, which is both
    /// what `HEADER_MODE_JOINED_WITH_1ST_FRAME` would have produced and what a
    /// subscriber joining at that keyframe needs.
    pub fn matched(&mut self, timestamp: Duration, payload: Bytes) -> (unit: Option<Bytes>)
        requires
            old(self)@.header.len() + bytes_of(payload).len() <= isize::MAX,
        ensures
            ({
                let (after, whole) = old(self)@.matched(timestamp, bytes_of(payload));
                &&& final(self)@ == after
                &&& match unit {
                    Some(unit) => whole == Some(bytes_of(unit)),
                    None => whole is None,
                }
            }),
            // Every byte comes out or goes on waiting, in order.
            (match unit {
                Some(unit) => bytes_of(unit),
                None => Seq::empty(),
            }) + final(self)@.header == old(self)@.header + bytes_of(payload),
    {
        match self.position(timestamp) {
            None => {
                let header = self.prefixed(payload);
                self.header = Some(header);
                None
            },
            Some(at) => {
                // Frames ahead of the match were taken and never answered, and an
                // encoder does not go back: nothing will answer them now.
                assert(self.frames@.len() <= usize::MAX) by {
                    assert(self.frames.len() == self.frames@.len());
                }
                self.skip(at + 1);
                Some(self.prefixed(payload))
            },
        }
    }

    /// Forget the frame a buffer answered without a usable access unit.
    pub fn dropped(&mut self, timestamp: Duration)
        ensures
            final(self)@ == old(self)@.dropped(timestamp),
    {
        match self.position(timestamp) {
            Some(at) => {
                assert(self.frames@.len() <= usize::MAX) by {
                    assert(self.frames.len() == self.frames@.len());
                }
                self.skip(at + 1);
            },
            None => {
                proof {
                    self@.frames.index_of_first_ensures(timestamp);
                }
            },
        }
    }

    /// Forget every outstanding frame, for a drain the driver has declared over.
    pub fn forget(&mut self)
        ensures
            final(self)@ == old(self)@.forgotten(),
    {
        self.frames.clear();
    }
}

/// Something that happens to the frames in flight.
pub enum Happening {
    /// A frame went to the driver.
    Queued(Duration),
    /// A coded buffer came back with a payload.
    Coded(Duration, Seq<u8>),
    /// A buffer came back without a usable payload.
    Dropped(Duration),
    /// The driver declared a drain over.
    Forgotten,
}

/// The bytes published over a run of happenings, and what is left after it.
pub open spec fn published(start: PendingView, run: Seq<Happening>) -> (PendingView, Seq<u8>)
    decreases run.len(),
{
    if run.len() == 0 {
        (start, Seq::empty())
    } else {
        let (now, out) = published(start, run.drop_last());
        match run.last() {
            Happening::Queued(timestamp) => (now.queued(timestamp), out),
            Happening::Coded(timestamp, payload) => match now.matched(timestamp, payload) {
                (after, Some(unit)) => (after, out + unit),
                (after, None) => (after, out),
            },
            Happening::Dropped(timestamp) => (now.dropped(timestamp), out),
            Happening::Forgotten => (now.forgotten(), out),
        }
    }
}

/// The bytes the driver produced over a run of happenings.
pub open spec fn produced(run: Seq<Happening>) -> Seq<u8>
    decreases run.len(),
{
    if run.len() == 0 {
        Seq::empty()
    } else {
        match run.last() {
            Happening::Coded(_, payload) => produced(run.drop_last()) + payload,
            _ => produced(run.drop_last()),
        }
    }
}

/// No byte of the elementary stream is lost, duplicated, or reordered: what was
/// published, followed by what is still waiting for an access unit, is what the
/// driver produced. So what is waiting is never more than that, and
/// [`Pending::matched`] has room for as long as the driver has produced no more than
/// one allocation can hold.
pub proof fn law_every_byte_is_published_once_in_order(start: PendingView, run: Seq<Happening>)
    requires
        start.header.len() == 0,
    ensures
        published(start, run).1 + published(start, run).0.header == produced(run),
        published(start, run).0.header.len() <= produced(run).len(),
    decreases run.len(),
{
    if run.len() == 0 {
        assert(Seq::<u8>::empty() + start.header =~= Seq::<u8>::empty());
    } else {
        law_every_byte_is_published_once_in_order(start, run.drop_last());
        let (now, out) = published(start, run.drop_last());
        if let Happening::Coded(timestamp, payload) = run.last() {
            assert(out + (now.header + payload) =~= (out + now.header) + payload);
            assert((out + (now.header + payload)) + Seq::<u8>::empty() =~= (out + now.header)
                + payload);
        }
    }
}

/// A frame is only ever matched in queueing order: answering one leaves exactly
/// the frames queued behind it, in the order they were queued.
pub proof fn law_answers_leave_the_frames_behind(
    pending: PendingView,
    timestamp: Duration,
    ahead: Seq<Duration>,
    behind: Seq<Duration>,
    payload: Seq<u8>,
)
    requires
        pending.frames == ahead.push(timestamp) + behind,
        !ahead.contains(timestamp),
    ensures
        pending.matched(timestamp, payload).0.frames == behind,
        pending.matched(timestamp, payload).1 == Some(pending.header + payload),
        pending.dropped(timestamp).frames == behind,
{
    let frames = pending.frames;
    assert(frames[ahead.len() as int] == timestamp);
    frames.index_of_first_ensures(timestamp);
    let at = frames.index_of_first(timestamp)->0;
    if at < ahead.len() {
        assert(ahead[at] == frames[at]);
    }
    assert(frames.subrange(at + 1, frames.len() as int) =~= behind);
}

/// A buffer whose timestamp was never queued answers nothing: every frame stays
/// owed, and its bytes wait for the next access unit.
pub proof fn law_a_stray_buffer_owes_no_frame(
    pending: PendingView,
    timestamp: Duration,
    payload: Seq<u8>,
)
    requires
        !pending.frames.contains(timestamp),
    ensures
        pending.matched(timestamp, payload).1 is None,
        pending.matched(timestamp, payload).0.frames == pending.frames,
        pending.dropped(timestamp) == pending,
{
    pending.frames.index_of_first_ensures(timestamp);
}

} // verus!

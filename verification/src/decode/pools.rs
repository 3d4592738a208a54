//! Where the buffers of the decoder's two pools are.
//!
//! A buffer is free, with the driver, or being filled. It counts as the driver's from
//! the moment the decoder asks for it to be queued. The picture pool comes and goes with
//! the size of the stream, and the driver's share of it goes along.

use vstd::multiset::Multiset;
use vstd::prelude::*;

use super::laws::Heard;
use super::v4l2::{lemma_step_keeps_order, Action, DecoderView, Phase, Told};
use crate::time::Duration;
use crate::v4l2::queue::{indices, lemma_reclaimed, lemma_taken, passed, Dequeue, QueueView};

verus! {

/// A decoder and the buffers the driver has of each of its pools.
pub struct Pools {
    pub decoder: DecoderView,
    pub coded: Multiset<u32>,
    pub pictures: Multiset<u32>,
}

/// Something that happens to a decoder.
pub enum Turn {
    /// A caller hands it an access unit.
    Decode { len: usize, timestamp: Duration, now: int },
    /// The last action is answered.
    Reply(Heard),
}

impl Turn {
    /// What the decoder makes of it.
    pub open spec fn taken_by(self, decoder: DecoderView) -> (DecoderView, Action) {
        match self {
            Turn::Decode { len, timestamp, now } => decoder.decode(len, timestamp, now),
            Turn::Reply(heard) => decoder.step(heard.told, heard.now),
        }
    }

    /// The coded buffer the driver gives back, if it does.
    pub open spec fn returns_coded(self) -> Option<u32> {
        match self {
            Turn::Reply(Heard { told: Told::Coded(Dequeue::Buffer(buffer)), .. }) => Some(
                buffer.index,
            ),
            _ => None,
        }
    }

    /// The picture buffer the driver gives back, if it does.
    pub open spec fn returns_picture(self) -> Option<u32> {
        match self {
            Turn::Reply(Heard { told: Told::Picture(Dequeue::Buffer(buffer), _), .. }) => Some(
                buffer.index,
            ),
            _ => None,
        }
    }
}

/// The coded buffer an action hands to the driver, if it does.
pub open spec fn queued_coded(action: Action) -> Option<u32> {
    match action {
        Action::QueueCoded { index, .. } => Some(index),
        _ => None,
    }
}

/// The picture buffer an action hands to the driver, if it does.
pub open spec fn queued_picture(action: Action) -> Option<u32> {
    match action {
        Action::QueuePicture { index } => Some(index),
        _ => None,
    }
}

/// The coded buffer an access unit is being put in, which is neither free nor the
/// driver's.
pub open spec fn in_hand(phase: Phase) -> Option<u32> {
    match phase {
        Phase::Filling { index, .. } => Some(index),
        _ => None,
    }
}

impl Pools {
    /// Every coded buffer, wherever it is.
    pub open spec fn all_coded(self) -> Multiset<u32> {
        passed(
            self.decoder.coded.free.to_multiset().add(self.coded),
            None,
            in_hand(self.decoder.phase),
        )
    }

    /// Every picture buffer, wherever it is, while there is a picture pool.
    pub open spec fn all_pictures(self) -> Multiset<u32> {
        match self.decoder.picture_queue() {
            Some(queue) => queue.free.to_multiset().add(self.pictures),
            None => self.pictures,
        }
    }

    /// Whether each picture buffer of the pool there is, if there is one, is in exactly
    /// one place.
    pub open spec fn pictures_whole(self) -> bool {
        self.all_pictures() == match self.decoder.picture_queue() {
            Some(queue) => indices(queue.lengths.len()).to_multiset(),
            None => Multiset::empty(),
        }
    }

    /// Whether the turn can happen: one call at a time, each reply in its turn, and the
    /// driver only gives back what it has.
    pub open spec fn allows(self, turn: Turn) -> bool {
        &&& match turn {
            Turn::Decode { timestamp, .. } => self.decoder.phase is Idle && timestamp.wf(),
            Turn::Reply(heard) => self.decoder.expects(heard.told),
        }
        &&& turn.returns_coded() matches Some(index) ==> self.coded.contains(index)
        &&& turn.returns_picture() matches Some(index) ==> self.pictures.contains(index)
    }

    /// Whether the turn is the refusal of a buffer that is on its way to the driver: an
    /// access unit that could not be copied into one, or one the driver did not take. A
    /// picture buffer refused before its pool is streaming goes with the pool.
    pub open spec fn strands(self, turn: Turn) -> bool {
        turn matches Turn::Reply(Heard { told: Told::Refused, .. }) && match self.decoder.phase {
            Phase::Filling { .. } | Phase::Queueing | Phase::Requeueing { .. } => true,
            _ => false,
        }
    }

    pub open spec fn after(self, turn: Turn) -> Pools {
        let (decoder, action) = turn.taken_by(self.decoder);
        Pools {
            decoder,
            coded: passed(self.coded, turn.returns_coded(), queued_coded(action)),
            pictures: if decoder.picture_queue() is None {
                Multiset::empty()
            } else {
                passed(self.pictures, turn.returns_picture(), queued_picture(action))
            },
        }
    }
}

/// No buffer is lost and none is in two places: whatever the caller asks for and the
/// driver answers, the coded buffers are the same before and after, and so is the
/// picture pool for as long as it is there, unless a buffer on its way to the driver was
/// refused.
pub proof fn law_no_buffer_is_lost(pools: Pools, turn: Turn)
    requires
        pools.decoder.wf(),
        pools.allows(turn),
        !pools.strands(turn),
    ensures
        pools.after(turn).all_coded() == pools.all_coded(),
        pools.pictures_whole() ==> pools.after(turn).pictures_whole(),
{
    let next = pools.after(turn);
    lemma_coded_moves(pools, turn);
    if let Some(index) = turn.returns_coded() {
        lemma_reclaimed(pools.decoder.coded, index);
    } else if pools.decoder.coded.free.len() > 0 {
        lemma_taken(pools.decoder.coded);
        lemma_reclaimed(pools.decoder.coded.taken(), pools.decoder.coded.free.first());
    }
    assert(next.all_coded() =~= pools.all_coded());
    lemma_pictures_move(pools, turn);
    if pools.pictures_whole() {
        if let Some(queue) = next.decoder.picture_queue() {
            let before = match pools.decoder.picture_queue() {
                Some(before) => before,
                None => fresh_pool(queue),
            };
            assert(before.free.to_multiset().add(pools.pictures) =~= indices(
                before.lengths.len(),
            ).to_multiset());
            if before.free.len() > 0 {
                lemma_taken(before);
            }
            assert(next.all_pictures() =~= indices(queue.lengths.len()).to_multiset());
        }
    }
}

/// How a turn moves the coded buffers.
proof fn lemma_coded_moves(pools: Pools, turn: Turn)
    requires
        pools.allows(turn),
        !pools.strands(turn),
    ensures
        ({
            let (before, (next, action)) = (pools.decoder, turn.taken_by(pools.decoder));
            let (held, holds) = (in_hand(before.phase), in_hand(next.phase));
            match (turn.returns_coded(), queued_coded(action)) {
                (Some(index), queued) => {
                    &&& next.coded == before.coded.reclaimed(index)
                    &&& queued is None && held is None && holds is None
                },
                (None, Some(index)) => {
                    &&& held == Some(index) && holds is None
                    &&& next.coded == before.coded
                },
                (None, None) => if next.coded == before.coded {
                    held == holds
                } else {
                    &&& before.coded.free.len() > 0
                    &&& held is None
                    &&& match holds {
                        Some(index) => {
                            &&& index == before.coded.free.first()
                            &&& next.coded == before.coded.taken()
                        },
                        None => next.coded == before.coded.taken().reclaimed(
                            before.coded.free.first(),
                        ),
                    }
                },
            }
        }),
{
}

/// A pool as it is when its last buffer has just been mapped.
spec fn fresh_pool(queue: QueueView) -> QueueView {
    queue.with_free(indices(queue.lengths.len()))
}

/// How a turn moves the picture buffers.
proof fn lemma_pictures_move(pools: Pools, turn: Turn)
    requires
        pools.decoder.wf(),
        pools.allows(turn),
        !pools.strands(turn),
    ensures
        ({
            let (before, (next, action)) = (pools.decoder, turn.taken_by(pools.decoder));
            next.picture_queue() matches Some(queue) ==> {
                let pool = match before.picture_queue() {
                    Some(pool) => pool,
                    None => fresh_pool(queue),
                };
                &&& pool.lengths == queue.lengths
                &&& before.picture_queue() is None ==> turn.returns_picture() is None
                &&& match (turn.returns_picture(), queued_picture(action)) {
                    (Some(index), queued) => queued == Some(index) && queue.free == pool.free,
                    (None, Some(index)) => {
                        &&& pool.free.len() > 0
                        &&& index == pool.free.first()
                        &&& queue.free == pool.taken().free
                    },
                    (None, None) => queue.free == pool.free,
                }
            }
        }),
{
}

/// The decoder and its pools after a run of turns.
pub open spec fn ran(pools: Pools, turns: Seq<Turn>) -> Pools
    decreases turns.len(),
{
    if turns.len() == 0 {
        pools
    } else {
        ran(pools, turns.drop_last()).after(turns.last())
    }
}

/// Whether each turn of a run can happen, and none refuses a buffer on its way to the
/// driver.
pub open spec fn possible(pools: Pools, turns: Seq<Turn>) -> bool
    decreases turns.len(),
{
    turns.len() > 0 ==> {
        let before = ran(pools, turns.drop_last());
        &&& possible(pools, turns.drop_last())
        &&& before.allows(turns.last())
        &&& !before.strands(turns.last())
    }
}

/// However long a decoder runs, the buffers it was given are the buffers there are:
/// from a decoder whose coded buffers are all free on, each of them is in exactly one
/// place, and so is each buffer of every picture pool. Between calls that is the free
/// list or the driver.
pub proof fn law_every_buffer_is_somewhere_once(
    decoder: DecoderView,
    coded: nat,
    turns: Seq<Turn>,
)
    requires
        decoder.wf(),
        decoder.phase is Idle,
        decoder.pictures is None,
        decoder.coded.free == indices(coded),
        possible(Pools { decoder, coded: Multiset::empty(), pictures: Multiset::empty() }, turns),
    ensures
        ({
            let now = ran(
                Pools { decoder, coded: Multiset::empty(), pictures: Multiset::empty() },
                turns,
            );
            &&& now.decoder.wf()
            &&& now.all_coded() == indices(coded).to_multiset()
            &&& now.pictures_whole()
            &&& now.decoder.phase is Idle ==> now.decoder.coded.free.to_multiset().add(now.coded)
                == indices(coded).to_multiset()
        }),
    decreases turns.len(),
{
    let fresh = Pools { decoder, coded: Multiset::empty(), pictures: Multiset::empty() };
    if turns.len() == 0 {
        assert(fresh.all_coded() =~= indices(coded).to_multiset());
    } else {
        law_every_buffer_is_somewhere_once(decoder, coded, turns.drop_last());
        let before = ran(fresh, turns.drop_last());
        law_no_buffer_is_lost(before, turns.last());
        match turns.last() {
            Turn::Decode { .. } => {},
            Turn::Reply(heard) => lemma_step_keeps_order(before.decoder, heard.told, heard.now),
        }
    }
}

} // verus!

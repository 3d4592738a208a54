//! Where the buffers of the encoder's two pools are.
//!
//! A buffer is free, with the driver, or being filled. It counts as the driver's from
//! the moment the encoder asks for it to be queued.

use vstd::multiset::Multiset;
use vstd::prelude::*;

use super::laws::{Ask, Heard};
use super::v4l2::{Action, EncoderView, Phase, Told};
use crate::v4l2::queue::{indices, lemma_reclaimed, lemma_taken, passed, Dequeue};

verus! {

/// An encoder and the buffers the driver has of each of its pools.
pub struct Pools {
    pub encoder: EncoderView,
    pub raw: Multiset<u32>,
    pub coded: Multiset<u32>,
}

/// Something that happens to an encoder.
pub enum Turn {
    /// A caller asks for something, at a time.
    Ask(Ask, int),
    /// The last action is answered.
    Reply(Heard),
}

impl Turn {
    /// What the encoder makes of it.
    pub open spec fn taken_by(self, encoder: EncoderView) -> (EncoderView, Action) {
        match self {
            Turn::Ask(Ask::Encode { size, timestamp, keyframe }, _) => encoder.encode(
                size,
                timestamp,
                keyframe,
            ),
            Turn::Ask(Ask::Flush, now) => encoder.flush(now),
            Turn::Reply(heard) => encoder.step(heard.told, heard.now),
        }
    }

    /// The raw buffer the driver gives back, if it does.
    pub open spec fn returns_raw(self) -> Option<u32> {
        match self {
            Turn::Reply(Heard { told: Told::Raw(Dequeue::Buffer(buffer)), .. }) => Some(
                buffer.index,
            ),
            _ => None,
        }
    }

    /// The coded buffer the driver gives back, if it does.
    pub open spec fn returns_coded(self) -> Option<u32> {
        match self {
            Turn::Reply(Heard { told: Told::Coded(Dequeue::Buffer(buffer), _), .. }) => Some(
                buffer.index,
            ),
            _ => None,
        }
    }
}

/// The raw buffer an action hands to the driver, if it does.
pub open spec fn queued_raw(action: Action) -> Option<u32> {
    match action {
        Action::QueueRaw { index, .. } => Some(index),
        _ => None,
    }
}

/// The coded buffer an action hands to the driver, if it does.
pub open spec fn queued_coded(action: Action) -> Option<u32> {
    match action {
        Action::QueueCoded { index } => Some(index),
        _ => None,
    }
}

/// The raw buffer a frame is being put in, which is neither free nor the driver's.
pub open spec fn in_hand(phase: Phase) -> Option<u32> {
    match phase {
        Phase::Writing { index, .. } => Some(index),
        Phase::Forcing { index, .. } => Some(index),
        _ => None,
    }
}

impl Pools {
    /// Every raw buffer, wherever it is.
    pub open spec fn all_raw(self) -> Multiset<u32> {
        passed(
            self.encoder.raw.free.to_multiset().add(self.raw),
            None,
            in_hand(self.encoder.phase),
        )
    }

    /// Every coded buffer, wherever it is.
    pub open spec fn all_coded(self) -> Multiset<u32> {
        self.encoder.coded.free.to_multiset().add(self.coded)
    }

    /// Whether the turn can happen: one call at a time, each reply in its turn, and the
    /// driver only gives back what it has.
    pub open spec fn allows(self, turn: Turn) -> bool {
        &&& match turn {
            Turn::Ask(_, _) => self.encoder.phase is Idle,
            Turn::Reply(heard) => self.encoder.expects(heard.told),
        }
        &&& turn.returns_raw() matches Some(index) ==> self.raw.contains(index)
        &&& turn.returns_coded() matches Some(index) ==> self.coded.contains(index)
    }

    /// Whether the turn is the refusal of a buffer that is on its way to the driver: a
    /// frame that could not be copied into one, or one the driver did not take.
    pub open spec fn strands(self, turn: Turn) -> bool {
        turn matches Turn::Reply(Heard { told: Told::Refused, .. }) && match self.encoder.phase {
            Phase::Writing { .. }
            | Phase::Queueing { .. }
            | Phase::Filling
            | Phase::Requeueing { .. } => true,
            _ => false,
        }
    }

    pub open spec fn after(self, turn: Turn) -> Pools {
        let (encoder, action) = turn.taken_by(self.encoder);
        Pools {
            encoder,
            raw: passed(self.raw, turn.returns_raw(), queued_raw(action)),
            coded: passed(self.coded, turn.returns_coded(), queued_coded(action)),
        }
    }
}

/// No buffer is lost and none is in two places: whatever the caller asks for and the
/// driver answers, the buffers of each pool are the same before and after, unless one
/// on its way to the driver was refused.
pub proof fn law_no_buffer_is_lost(pools: Pools, turn: Turn)
    requires
        pools.allows(turn),
        !pools.strands(turn),
    ensures
        pools.after(turn).all_raw() == pools.all_raw(),
        pools.after(turn).all_coded() == pools.all_coded(),
{
    let next = pools.after(turn);
    lemma_raw_moves(pools, turn);
    lemma_coded_moves(pools, turn);
    if let Some(index) = turn.returns_raw() {
        lemma_reclaimed(pools.encoder.raw, index);
    } else if in_hand(pools.encoder.phase) is None && in_hand(next.encoder.phase) is Some {
        lemma_taken(pools.encoder.raw);
    }
    assert(next.all_raw() =~= pools.all_raw());
    if pools.encoder.coded.free != next.encoder.coded.free {
        lemma_taken(pools.encoder.coded);
    }
    assert(next.all_coded() =~= pools.all_coded());
}

/// How a turn moves the raw buffers.
proof fn lemma_raw_moves(pools: Pools, turn: Turn)
    requires
        pools.allows(turn),
        !pools.strands(turn),
    ensures
        ({
            let (before, (next, action)) = (pools.encoder, turn.taken_by(pools.encoder));
            let (held, holds) = (in_hand(before.phase), in_hand(next.phase));
            match (turn.returns_raw(), queued_raw(action)) {
                (Some(index), queued) => {
                    &&& next.raw == before.raw.reclaimed(index)
                    &&& queued is None && held is None && holds is None
                },
                (None, Some(index)) => {
                    &&& held == Some(index) && holds is None
                    &&& next.raw == before.raw
                },
                (None, None) => if held is None && holds is Some {
                    &&& before.raw.free.len() > 0
                    &&& holds == Some(before.raw.free.first())
                    &&& next.raw == before.raw.taken()
                } else {
                    next.raw.free == before.raw.free && held == holds
                },
            }
        }),
{
}

/// How a turn moves the coded buffers.
proof fn lemma_coded_moves(pools: Pools, turn: Turn)
    requires
        pools.allows(turn),
        !pools.strands(turn),
    ensures
        ({
            let (before, (next, action)) = (pools.encoder, turn.taken_by(pools.encoder));
            match (turn.returns_coded(), queued_coded(action)) {
                (Some(index), queued) => {
                    &&& queued == Some(index)
                    &&& next.coded.free == before.coded.free
                },
                (None, Some(index)) => {
                    &&& before.coded.free.len() > 0
                    &&& index == before.coded.free.first()
                    &&& next.coded.free == before.coded.taken().free
                },
                (None, None) => next.coded.free == before.coded.free,
            }
        }),
{
}

/// The encoder and its pools after a run of turns.
pub open spec fn ran(pools: Pools, turns: Seq<Turn>) -> Pools
    decreases turns.len(),
{
    if turns.len() == 0 {
        pools
    } else {
        ran(pools, turns.drop_last()).after(turns.last())
    }
}

/// Whether each turn of a run can happen, and none refuses a buffer on its way to the
/// driver.
pub open spec fn possible(pools: Pools, turns: Seq<Turn>) -> bool
    decreases turns.len(),
{
    turns.len() > 0 ==> {
        let before = ran(pools, turns.drop_last());
        &&& possible(pools, turns.drop_last())
        &&& before.allows(turns.last())
        &&& !before.strands(turns.last())
    }
}

/// However long an encoder runs, the buffers it was given are the buffers there are:
/// from an encoder whose buffers are all free on, each buffer of either pool is in
/// exactly one place. Between calls that is the free list or the driver.
pub proof fn law_every_buffer_is_somewhere_once(
    encoder: EncoderView,
    raw: nat,
    coded: nat,
    turns: Seq<Turn>,
)
    requires
        encoder.phase is Idle,
        encoder.raw.free == indices(raw),
        encoder.coded.free == indices(coded),
        possible(Pools { encoder, raw: Multiset::empty(), coded: Multiset::empty() }, turns),
    ensures
        ({
            let now = ran(
                Pools { encoder, raw: Multiset::empty(), coded: Multiset::empty() },
                turns,
            );
            &&& now.all_raw() == indices(raw).to_multiset()
            &&& now.all_coded() == indices(coded).to_multiset()
            &&& now.encoder.phase is Idle ==> now.encoder.raw.free.to_multiset().add(now.raw)
                == indices(raw).to_multiset()
        }),
    decreases turns.len(),
{
    let fresh = Pools { encoder, raw: Multiset::empty(), coded: Multiset::empty() };
    if turns.len() == 0 {
        assert(fresh.all_raw() =~= indices(raw).to_multiset());
        assert(fresh.all_coded() =~= indices(coded).to_multiset());
    } else {
        law_every_buffer_is_somewhere_once(encoder, raw, coded, turns.drop_last());
        law_no_buffer_is_lost(ran(fresh, turns.drop_last()), turns.last());
    }
}

} // verus!

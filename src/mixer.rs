use vstd::prelude::*;

use crate::midi::{MidiClip, MidiEvent};

verus! {

/// Which side of the DJ crossfader a track is routed to.
#[derive(Debug, Clone, Copy, PartialEq, Eq, Structural)]
pub enum CrossfaderGroup {
    A,
    B,
    /// Unaffected by the crossfader.
    Thru,
}

impl CrossfaderGroup {
    /// Maps the control value of a track's group selector: -1 is A, 1 is B, anything else Thru.
    pub fn from_index(group_idx: i32) -> (r: CrossfaderGroup)
        ensures
            r == (if group_idx == -1 {
                CrossfaderGroup::A
            } else if group_idx == 1 {
                CrossfaderGroup::B
            } else {
                CrossfaderGroup::Thru
            }),
    {
        match group_idx {
            -1 => CrossfaderGroup::A,
            1 => CrossfaderGroup::B,
            _ => CrossfaderGroup::Thru,
        }
    }
}

/// A piece of audio on the timeline; all positions are in samples.
#[derive(Debug, Clone)]
pub struct Clip {
    pub start_time: u64,
    pub duration: u64,
    /// Start point within the source asset.
    pub offset: u64,
    pub asset_id: String,
}

impl Clip {
    /// The clip sounds at timeline position `pos`.
    pub open spec fn covers(&self, pos: int) -> bool {
        self.start_time <= pos < self.start_time + self.duration
    }

    /// Whether the clip sounds at timeline position `pos`.
    pub fn is_active_at(&self, pos: u64) -> (r: bool)
        ensures
            r == self.covers(pos as int),
    {
        pos >= self.start_time && pos - self.start_time < self.duration
    }

    /// The index into the asset that is heard at timeline position `pos`.
    pub fn source_index(&self, pos: u64) -> (r: u64)
        requires
            self.covers(pos as int),
            self.offset + (pos - self.start_time) <= u64::MAX,
        ensures
            r == self.offset + (pos - self.start_time),
    {
        self.offset + (pos - self.start_time)
    }
}

/// A MIDI clip placed on the timeline at `start_time` (in samples).
#[derive(Debug, Clone)]
pub struct PlacedMidiClip {
    pub start_time: u64,
    pub inner: MidiClip,
}

/// The event falls inside the block `[block_start, block_end)` once placed at `clip_start`.
pub open spec fn in_block(clip_start: u64, block_start: u64, block_end: int, e: MidiEvent) -> bool {
    block_start <= clip_start + e.timestamp < block_end
}

pub open spec fn in_block_pred(clip_start: u64, block_start: u64, block_end: int) -> spec_fn(
    MidiEvent,
) -> bool {
    |e: MidiEvent| in_block(clip_start, block_start, block_end, e)
}

impl PlacedMidiClip {
    /// The clip's span `[start_time, start_time + duration)` meets the block `[block_start, block_end)`.
    pub open spec fn overlaps(&self, block_start: int, block_end: int) -> bool {
        self.start_time < block_end && block_start < self.start_time + self.inner.duration
    }

    /// The events that a block of `len` samples starting at `block_start` dispatches, in clip order.
    pub open spec fn block_events(&self, block_start: u64, len: u64) -> Seq<MidiEvent> {
        if self.overlaps(block_start as int, block_start + len) {
            self.inner.events@.filter(in_block_pred(self.start_time, block_start, block_start + len))
        } else {
            Seq::empty()
        }
    }

    /// Appends to `queue` every event of this clip whose absolute time lies in the block
    /// of `len` samples that starts at `block_start`, provided the clip overlaps the block.
    pub fn append_block_events(&self, block_start: u64, len: u64, queue: &mut Vec<MidiEvent>)
        requires
            block_start + len <= u64::MAX,
        ensures
            final(queue)@ == old(queue)@ + self.block_events(block_start, len),
    {
        let block_end = block_start + len;
        let clip_start = self.start_time;
        let clip_end: u128 = clip_start as u128 + self.inner.duration as u128;
        if clip_end <= block_start as u128 || clip_start >= block_end {
            assert(self.block_events(block_start, len) =~= Seq::<MidiEvent>::empty());
            return;
        }
        let ghost pred = in_block_pred(self.start_time, block_start, block_end as int);
        let ghost q0 = queue@;
        let events = &self.inner.events;
        let mut i: usize = 0;
        while i < events.len()
            invariant
                0 <= i <= events@.len(),
                events == &self.inner.events,
                block_end == block_start + len,
                clip_start == self.start_time,
                pred == in_block_pred(self.start_time, block_start, block_end as int),
                queue@ == q0 + events@.take(i as int).filter(pred),
            decreases events@.len() - i,
        {
            let e = events[i];
            let abs: u128 = clip_start as u128 + e.timestamp as u128;
            proof {
                assert(events@.take(i as int + 1) =~= events@.take(i as int).push(e));
                events@.take(i as int).lemma_filter_push(e, pred);
            }
            if abs >= block_start as u128 && abs < block_end as u128 {
                queue.push(e);
            }
            i += 1;
            assert(queue@ =~= q0 + events@.take(i as int).filter(pred));
        }
        assert(events@.take(i as int) =~= events@);
    }
}

} // verus!

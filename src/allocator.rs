use vstd::prelude::*;

use crate::midi::{MidiEvent, MidiEventType};

verus! {

/// What a polyphony slot is doing.
#[derive(Debug, Clone, Copy, PartialEq, Eq, Structural)]
pub enum VoiceState {
    Idle,
    Active { note: u8, velocity: u8, age: u64 },
    /// Gated off; the envelope tail is still sounding.
    Releasing { note: u8 },
}

impl VoiceState {
    /// The slot is sounding `note`, held or releasing.
    pub open spec fn holds(self, note: u8) -> bool {
        match self {
            VoiceState::Active { note: n, .. } => n == note,
            VoiceState::Releasing { note: n } => n == note,
            VoiceState::Idle => false,
        }
    }

    pub open spec fn is_active(self) -> bool {
        self is Active
    }

    pub open spec fn is_busy(self) -> bool {
        !(self is Idle)
    }
}

/// No two sounding slots hold the same note.
pub open spec fn notes_unique(voices: Seq<VoiceState>) -> bool {
    forall|i: int, j: int, n: u8|
        0 <= i < voices.len() && 0 <= j < voices.len() && #[trigger] voices[i].holds(n)
            && #[trigger] voices[j].holds(n) ==> i == j
}

/// The slot that a NoteOn for `note` takes: the slot already sounding the note; else the
/// first idle slot; else the active slot of least age (lowest index among equal ages);
/// else, with every slot releasing, slot 0.
pub open spec fn picks_slot(voices: Seq<VoiceState>, note: u8, r: int) -> bool {
    &&& 0 <= r < voices.len()
    &&& if exists|i: int| 0 <= i < voices.len() && #[trigger] voices[i].holds(note) {
        voices[r].holds(note) && forall|i: int| 0 <= i < r ==> !#[trigger] voices[i].holds(note)
    } else if exists|i: int| 0 <= i < voices.len() && #[trigger] voices[i] == VoiceState::Idle {
        voices[r] == VoiceState::Idle && forall|i: int|
            0 <= i < r ==> #[trigger] voices[i] != VoiceState::Idle
    } else if exists|i: int| 0 <= i < voices.len() && #[trigger] voices[i].is_active() {
        &&& voices[r].is_active()
        &&& forall|i: int|
            0 <= i < voices.len() && #[trigger] voices[i].is_active() ==> voices[r]->age
                <= voices[i]->age
        &&& forall|i: int|
            0 <= i < r && #[trigger] voices[i].is_active() ==> voices[r]->age < voices[i]->age
    } else {
        r == 0
    }
}

/// What a NoteOff for `note` does: the first slot that holds `note` active, if any,
/// turns Releasing and is returned; otherwise nothing changes.
pub open spec fn releases(before: Seq<VoiceState>, after: Seq<VoiceState>, note: u8, r: Option<usize>) -> bool {
    match r {
        Some(i) => {
            &&& i < before.len()
            &&& before[i as int].is_active()
            &&& before[i as int].holds(note)
            &&& forall|k: int| 0 <= k < i ==> !(#[trigger] before[k].is_active() && before[k].holds(note))
            &&& after == before.update(i as int, VoiceState::Releasing { note })
        },
        None => {
            &&& forall|k: int| 0 <= k < before.len() ==> !(#[trigger] before[k].is_active() && before[k].holds(note))
            &&& after == before
        },
    }
}

/// What a synth does to its voices for one MIDI event.
#[derive(Debug, Clone, Copy, PartialEq, Eq, Structural)]
pub enum VoiceCommand {
    /// Start the note of the event on this voice.
    Start(usize),
    /// Gate off this voice.
    Stop(usize),
    /// Nothing to do.
    Ignore,
}

/// However notes come and go, no more slots sound than the allocator has.
pub proof fn lemma_busy_within_voice_count(a: VoiceAllocator)
    requires
        a.wf(),
    ensures
        VoiceAllocator::busy_count(a.voices@) <= a.num_voices,
{
    broadcast use Seq::lemma_filter_len;

}

/// A second NoteOn for a note that a slot already sounds lands on that same slot,
/// so a note never occupies two slots.
pub proof fn lemma_repeat_note_on_same_slot(
    voices: Seq<VoiceState>,
    note: u8,
    velocity: u8,
    age: u64,
    first: int,
    second: int,
)
    requires
        notes_unique(voices),
        picks_slot(voices, note, first),
        picks_slot(
            voices.update(first, VoiceState::Active { note, velocity, age }),
            note,
            second,
        ),
    ensures
        second == first,
{
    let v1 = voices.update(first, VoiceState::Active { note, velocity, age });
    assert(v1[first].holds(note));
    if second != first {
        assert(voices[second].holds(note));
        assert(voices[first].holds(note));
    }
}

/// Hands out polyphony slots to notes, stealing the least recently started one when full.
pub struct VoiceAllocator {
    pub num_voices: usize,
    pub voices: Vec<VoiceState>,
    /// Age stamp given to the next activated slot; advanced once per block.
    pub last_age: u64,
}

impl VoiceAllocator {
    pub open spec fn wf(&self) -> bool {
        &&& self.voices@.len() == self.num_voices
        &&& notes_unique(self.voices@)
    }

    /// The number of sounding (active or releasing) slots.
    pub open spec fn busy_count(voices: Seq<VoiceState>) -> nat {
        voices.filter(|s: VoiceState| s.is_busy()).len()
    }

    pub fn new(num_voices: usize) -> (r: VoiceAllocator)
        ensures
            r.wf(),
            r.num_voices == num_voices,
            r.voices@ == Seq::new(num_voices as nat, |i: int| VoiceState::Idle),
            r.last_age == 0,
    {
        let mut voices: Vec<VoiceState> = Vec::new();
        let mut i: usize = 0;
        while i < num_voices
            invariant
                i <= num_voices,
                voices@ == Seq::new(i as nat, |k: int| VoiceState::Idle),
            decreases num_voices - i,
        {
            voices.push(VoiceState::Idle);
            i += 1;
            assert(voices@ =~= Seq::new(i as nat, |k: int| VoiceState::Idle));
        }
        VoiceAllocator { num_voices, voices, last_age: 0 }
    }

    /// Advances the age counter; called once per block.
    pub fn tick(&mut self)
        requires
            old(self).last_age < u64::MAX,
        ensures
            final(self).last_age == old(self).last_age + 1,
            final(self).voices == old(self).voices,
            final(self).num_voices == old(self).num_voices,
    {
        self.last_age += 1;
    }

    /// Picks a slot for `note` (see `picks_slot`) and makes it active with the current age.
    pub fn note_on(&mut self, note: u8, velocity: u8) -> (r: usize)
        requires
            old(self).wf(),
            old(self).num_voices > 0,
        ensures
            final(self).wf(),
            picks_slot(old(self).voices@, note, r as int),
            final(self).voices@ == old(self).voices@.update(
                r as int,
                VoiceState::Active { note, velocity, age: old(self).last_age },
            ),
            final(self).num_voices == old(self).num_voices,
            final(self).last_age == old(self).last_age,
    {
        let ghost v0 = self.voices@;
        let slot = self.choose_slot(note);
        self.voices.set(slot, VoiceState::Active { note, velocity, age: self.last_age });
        proof {
            let v1 = self.voices@;
            assert forall|i: int, j: int, n: u8|
                0 <= i < v1.len() && 0 <= j < v1.len() && #[trigger] v1[i].holds(n)
                    && #[trigger] v1[j].holds(n) implies i == j by {
                if i != slot && j != slot {
                    assert(v0[i].holds(n) && v0[j].holds(n));
                } else if n == note {
                    if i != slot {
                        assert(v0[i].holds(note));
                    }
                    if j != slot {
                        assert(v0[j].holds(note));
                    }
                }
            }
        }
        slot
    }

    fn choose_slot(&self, note: u8) -> (r: usize)
        requires
            self.wf(),
            self.num_voices > 0,
        ensures
            picks_slot(self.voices@, note, r as int),
    {
        let n = self.voices.len();
        let mut i: usize = 0;
        while i < n
            invariant
                n == self.voices@.len(),
                i <= n,
                forall|k: int| 0 <= k < i ==> !#[trigger] self.voices@[k].holds(note),
            decreases n - i,
        {
            let held = match self.voices[i] {
                VoiceState::Active { note: m, .. } => m == note,
                VoiceState::Releasing { note: m } => m == note,
                VoiceState::Idle => false,
            };
            if held {
                return i;
            }
            i += 1;
        }
        let mut i: usize = 0;
        while i < n
            invariant
                n == self.voices@.len(),
                i <= n,
                forall|k: int| 0 <= k < n ==> !#[trigger] self.voices@[k].holds(note),
                forall|k: int| 0 <= k < i ==> #[trigger] self.voices@[k] != VoiceState::Idle,
            decreases n - i,
        {
            if let VoiceState::Idle = self.voices[i] {
                return i;
            }
            i += 1;
        }
        let mut found = false;
        let mut oldest_age: u64 = 0;
        let mut victim: usize = 0;
        let mut i: usize = 0;
        while i < n
            invariant
                n == self.voices@.len(),
                n > 0,
                i <= n,
                victim < n,
                forall|k: int| 0 <= k < n ==> !#[trigger] self.voices@[k].holds(note),
                forall|k: int| 0 <= k < n ==> #[trigger] self.voices@[k] != VoiceState::Idle,
                found <==> exists|k: int| 0 <= k < i && #[trigger] self.voices@[k].is_active(),
                !found ==> victim == 0,
                found ==> victim < i && self.voices@[victim as int].is_active()
                    && self.voices@[victim as int]->age == oldest_age,
                forall|k: int|
                    0 <= k < i && #[trigger] self.voices@[k].is_active() ==> oldest_age
                        <= self.voices@[k]->age,
                forall|k: int|
                    0 <= k < victim && #[trigger] self.voices@[k].is_active() ==> oldest_age
                        < self.voices@[k]->age,
            decreases n - i,
        {
            let ghost prev_found = found;
            if let VoiceState::Active { age, .. } = self.voices[i] {
                if !found || age < oldest_age {
                    found = true;
                    oldest_age = age;
                    victim = i;
                }
                assert(self.voices@[i as int].is_active());
            } else {
                assert(!self.voices@[i as int].is_active());
                assert(found == prev_found);
                assert forall|k: int| 0 <= k < i + 1 && #[trigger] self.voices@[k].is_active() implies 0
                    <= k < i by {}
            }
            i += 1;
        }
        victim
    }

    /// Moves the first active slot holding `note` to Releasing and returns its index.
    pub fn note_off(&mut self, note: u8) -> (r: Option<usize>)
        requires
            old(self).wf(),
        ensures
            final(self).wf(),
            final(self).num_voices == old(self).num_voices,
            final(self).last_age == old(self).last_age,
            releases(old(self).voices@, final(self).voices@, note, r),
    {
        let n = self.voices.len();
        let mut i: usize = 0;
        while i < n
            invariant
                n == self.voices@.len(),
                i <= n,
                self.voices == old(self).voices,
                self.num_voices == old(self).num_voices,
                self.last_age == old(self).last_age,
                self.wf(),
                forall|k: int|
                    0 <= k < i ==> !(#[trigger] self.voices@[k].is_active()
                        && self.voices@[k].holds(note)),
            decreases n - i,
        {
            if let VoiceState::Active { note: m, .. } = self.voices[i] {
                if m == note {
                    let ghost v0 = self.voices@;
                    assert(v0[i as int].holds(note));
                    assert(notes_unique(v0));
                    self.voices.set(i, VoiceState::Releasing { note });
                    proof {
                        let v1 = self.voices@;
                        assert forall|a: int, b: int, x: u8|
                            0 <= a < v1.len() && 0 <= b < v1.len() && #[trigger] v1[a].holds(x)
                                && #[trigger] v1[b].holds(x) implies a == b by {
                            if a == i {
                                assert(x == note);
                            }
                            if b == i {
                                assert(x == note);
                            }
                            assert(v0[a].holds(x) && v0[b].holds(x));
                        }
                    }
                    return Some(i);
                }
            }
            i += 1;
        }
        None
    }

    /// Returns a slot to Idle once its envelope has finished; out-of-range indices are ignored.
    pub fn voice_finished(&mut self, voice_index: usize)
        requires
            old(self).wf(),
        ensures
            final(self).wf(),
            final(self).num_voices == old(self).num_voices,
            final(self).last_age == old(self).last_age,
            final(self).voices@ == (if voice_index < old(self).num_voices {
                old(self).voices@.update(voice_index as int, VoiceState::Idle)
            } else {
                old(self).voices@
            }),
    {
        if voice_index < self.num_voices {
            let ghost v0 = self.voices@;
            self.voices.set(voice_index, VoiceState::Idle);
            proof {
                let v1 = self.voices@;
                assert forall|a: int, b: int, x: u8|
                    0 <= a < v1.len() && 0 <= b < v1.len() && #[trigger] v1[a].holds(x)
                        && #[trigger] v1[b].holds(x) implies a == b by {
                    assert(v0[a].holds(x) && v0[b].holds(x));
                }
            }
        }
    }

    /// Routes one MIDI event: a NoteOn takes a slot, a NoteOff releases one, and other
    /// messages are ignored. The command says which voice to start or stop.
    pub fn handle_event(&mut self, event: MidiEvent) -> (r: VoiceCommand)
        requires
            old(self).wf(),
            old(self).num_voices > 0,
        ensures
            final(self).wf(),
            final(self).num_voices == old(self).num_voices,
            final(self).last_age == old(self).last_age,
            match event.event_type {
                MidiEventType::NoteOn => {
                    &&& r is Start
                    &&& picks_slot(old(self).voices@, event.note, r->Start_0 as int)
                    &&& final(self).voices@ == old(self).voices@.update(
                        r->Start_0 as int,
                        VoiceState::Active {
                            note: event.note,
                            velocity: event.velocity,
                            age: old(self).last_age,
                        },
                    )
                },
                MidiEventType::NoteOff => {
                    &&& r is Stop || r is Ignore
                    &&& releases(
                        old(self).voices@,
                        final(self).voices@,
                        event.note,
                        if r is Stop {
                            Some(r->Stop_0)
                        } else {
                            None
                        },
                    )
                },
                _ => r == VoiceCommand::Ignore && final(self).voices == old(self).voices,
            },
    {
        match event.event_type {
            MidiEventType::NoteOn => VoiceCommand::Start(self.note_on(event.note, event.velocity)),
            MidiEventType::NoteOff => match self.note_off(event.note) {
                Some(i) => VoiceCommand::Stop(i),
                None => VoiceCommand::Ignore,
            },
            _ => VoiceCommand::Ignore,
        }
    }
}

} // verus!

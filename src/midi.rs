use vstd::prelude::*;

verus! {

/// The kind of a MIDI message.
#[derive(Debug, Clone, Copy, PartialEq, Eq, Structural)]
pub enum MidiEventType {
    NoteOn,
    NoteOff,
    ControlChange,
    PitchBend,
}

/// One MIDI message; `timestamp` is in samples, relative to the clip that holds it.
#[derive(Debug, Clone, Copy, PartialEq, Eq, Structural)]
pub struct MidiEvent {
    pub event_type: MidiEventType,
    pub channel: u8,
    pub note: u8,
    pub velocity: u8,
    pub timestamp: u64,
}

impl MidiEvent {
    pub fn note_on(channel: u8, note: u8, velocity: u8, timestamp: u64) -> (r: MidiEvent)
        ensures
            r == (MidiEvent { event_type: MidiEventType::NoteOn, channel, note, velocity, timestamp }),
    {
        MidiEvent { event_type: MidiEventType::NoteOn, channel, note, velocity, timestamp }
    }

    pub fn note_off(channel: u8, note: u8, timestamp: u64) -> (r: MidiEvent)
        ensures
            r == (MidiEvent {
                event_type: MidiEventType::NoteOff,
                channel,
                note,
                velocity: 0,
                timestamp,
            }),
    {
        MidiEvent { event_type: MidiEventType::NoteOff, channel, note, velocity: 0, timestamp }
    }
}

/// Events are in ascending order of timestamp.
pub open spec fn sorted_by_time(s: Seq<MidiEvent>) -> bool {
    forall|i: int, j: int| 0 <= i <= j < s.len() ==> s[i].timestamp <= s[j].timestamp
}

/// Inserts `e` into `s` after every event whose timestamp is not later than its own,
/// which is where a stable sort by timestamp puts an event appended to a sorted sequence.
pub open spec fn insert_by_time(s: Seq<MidiEvent>, e: MidiEvent) -> Seq<MidiEvent>
    decreases s.len(),
{
    if s.len() == 0 {
        seq![e]
    } else if e.timestamp < s.last().timestamp {
        insert_by_time(s.drop_last(), e).push(s.last())
    } else {
        s.push(e)
    }
}

/// A note as stored in a project: position and length in samples, relative to its clip.
#[derive(Debug, Clone, Copy, PartialEq, Eq, Structural)]
pub struct MidiNoteData {
    pub start: u64,
    pub duration: u64,
    pub note: u8,
    pub velocity: u8,
}

/// The events that a note of a project contributes to its clip: a NoteOn at its start and
/// a NoteOff at its end, on channel 0.
pub open spec fn note_events_added(s: Seq<MidiEvent>, n: MidiNoteData) -> Seq<MidiEvent> {
    insert_by_time(
        insert_by_time(
            s,
            MidiEvent {
                event_type: MidiEventType::NoteOn,
                channel: 0,
                note: n.note,
                velocity: n.velocity,
                timestamp: n.start,
            },
        ),
        MidiEvent {
            event_type: MidiEventType::NoteOff,
            channel: 0,
            note: n.note,
            velocity: 0,
            timestamp: (n.start + n.duration) as u64,
        },
    )
}

/// The events of a clip built from `notes`, added in order.
pub open spec fn events_of_notes(notes: Seq<MidiNoteData>) -> Seq<MidiEvent>
    decreases notes.len(),
{
    if notes.len() == 0 {
        Seq::empty()
    } else {
        note_events_added(events_of_notes(notes.drop_last()), notes.last())
    }
}

/// A note ends within the timeline.
pub open spec fn note_fits(n: MidiNoteData) -> bool {
    n.start + n.duration <= u64::MAX
}

/// A named sequence of MIDI events, sorted by timestamp.
#[derive(Debug, Clone)]
pub struct MidiClip {
    pub name: String,
    pub events: Vec<MidiEvent>,
    pub duration: u64,
}

proof fn lemma_insert_split(s: Seq<MidiEvent>, e: MidiEvent, j: int)
    requires
        0 <= j <= s.len(),
        j == 0 || s[j - 1].timestamp <= e.timestamp,
        forall|k: int| j <= k < s.len() ==> e.timestamp < #[trigger] s[k].timestamp,
    ensures
        insert_by_time(s, e) == s.take(j) + seq![e] + s.skip(j),
    decreases s.len(),
{
    if s.len() == 0 {
        assert(s.take(j) + seq![e] + s.skip(j) =~= seq![e]);
    } else if j == s.len() {
        assert(s.take(j) + seq![e] + s.skip(j) =~= s.push(e));
    } else {
        let d = s.drop_last();
        lemma_insert_split(d, e, j);
        assert(d.take(j) + seq![e] + d.skip(j) + seq![s.last()] =~= s.take(j) + seq![e] + s.skip(j));
    }
}

/// Where `insert_by_time` puts an event stamped `t` into a sorted sequence.
pub open spec fn upper_bound(s: Seq<MidiEvent>, t: u64) -> int
    decreases s.len(),
{
    if s.len() == 0 {
        0
    } else if t < s.last().timestamp {
        upper_bound(s.drop_last(), t)
    } else {
        s.len() as int
    }
}

proof fn lemma_upper_bound(s: Seq<MidiEvent>, t: u64)
    requires
        sorted_by_time(s),
    ensures
        0 <= upper_bound(s, t) <= s.len(),
        forall|k: int| 0 <= k < upper_bound(s, t) ==> #[trigger] s[k].timestamp <= t,
        forall|k: int| upper_bound(s, t) <= k < s.len() ==> t < #[trigger] s[k].timestamp,
    decreases s.len(),
{
    if s.len() > 0 && t < s.last().timestamp {
        let d = s.drop_last();
        lemma_upper_bound(d, t);
        assert forall|k: int| upper_bound(s, t) <= k < s.len() implies t < #[trigger] s[k].timestamp by {
            if k < d.len() {
                assert(d[k] == s[k]);
            }
        }
        assert forall|k: int| 0 <= k < upper_bound(s, t) implies #[trigger] s[k].timestamp <= t by {
            assert(d[k] == s[k]);
        }
    } else if s.len() > 0 {
        assert forall|k: int| 0 <= k < upper_bound(s, t) implies #[trigger] s[k].timestamp <= t by {
            assert(s[k].timestamp <= s[s.len() - 1].timestamp);
        }
    }
}

/// Adding a note to a sorted clip puts its NoteOn before its NoteOff.
pub proof fn lemma_note_on_precedes_note_off(s: Seq<MidiEvent>, on: MidiEvent, off: MidiEvent)
    requires
        sorted_by_time(s),
        on.timestamp <= off.timestamp,
    ensures
        exists|i: int, j: int|
            0 <= i < j < s.len() + 2 && #[trigger] insert_by_time(insert_by_time(s, on), off)[i] == on
                && #[trigger] insert_by_time(insert_by_time(s, on), off)[j] == off,
{
    let i = upper_bound(s, on.timestamp);
    lemma_upper_bound(s, on.timestamp);
    if i > 0 {
        assert(s[i - 1].timestamp <= on.timestamp);
    }
    lemma_insert_split(s, on, i);
    lemma_insert_sorted(s, on);
    let t = insert_by_time(s, on);
    assert(t[i] == on);
    let j = upper_bound(t, off.timestamp);
    lemma_upper_bound(t, off.timestamp);
    if j > 0 {
        assert(t[j - 1].timestamp <= off.timestamp);
    }
    lemma_insert_split(t, off, j);
    assert(i < j) by {
        if j <= i {
            assert(off.timestamp < t[i].timestamp);
        }
    }
    let r = insert_by_time(t, off);
    assert(r[i] == on);
    assert(r[j] == off);
}

proof fn lemma_insert_sorted(s: Seq<MidiEvent>, e: MidiEvent)
    requires
        sorted_by_time(s),
    ensures
        sorted_by_time(insert_by_time(s, e)),
        insert_by_time(s, e).len() == s.len() + 1,
    decreases s.len(),
{
    if s.len() > 0 && e.timestamp < s.last().timestamp {
        let d = s.drop_last();
        lemma_insert_sorted(d, e);
        let r = insert_by_time(d, e);
        assert forall|k: int| 0 <= k < r.len() implies r[k].timestamp <= s.last().timestamp by {
            lemma_insert_members(d, e, k);
        }
    }
}

proof fn lemma_insert_members(s: Seq<MidiEvent>, e: MidiEvent, k: int)
    requires
        0 <= k < s.len() + 1,
    ensures
        insert_by_time(s, e).len() == s.len() + 1,
        insert_by_time(s, e)[k] == e || exists|m: int| 0 <= m < s.len() && insert_by_time(s, e)[k] == s[m],
    decreases s.len(),
{
    if s.len() > 0 && e.timestamp < s.last().timestamp {
        let d = s.drop_last();
        if k < d.len() + 1 {
            lemma_insert_members(d, e, k);
            if insert_by_time(d, e)[k] != e {
                let m = choose|m: int| 0 <= m < d.len() && insert_by_time(d, e)[k] == d[m];
                assert(insert_by_time(s, e)[k] == s[m]);
            }
        } else {
            lemma_insert_members(d, e, 0);
            assert(insert_by_time(s, e)[k] == s[s.len() - 1]);
        }
    } else if s.len() > 0 && k < s.len() {
        assert(insert_by_time(s, e)[k] == s[k]);
    }
}

impl MidiClip {
    pub open spec fn wf(&self) -> bool {
        sorted_by_time(self.events@)
    }

    pub fn new(name: &str, duration: u64) -> (r: MidiClip)
        ensures
            r.wf(),
            r.name@ == name@,
            r.events@.len() == 0,
            r.duration == duration,
    {
        MidiClip { name: name.to_string(), events: Vec::new(), duration }
    }

    /// Inserts `e` after every event that is not later than it.
    fn insert_event(&mut self, e: MidiEvent)
        requires
            old(self).wf(),
        ensures
            final(self).wf(),
            final(self).events@ == insert_by_time(old(self).events@, e),
            final(self).name == old(self).name,
            final(self).duration == old(self).duration,
    {
        let ghost s = self.events@;
        self.events.push(e);
        let mut j: usize = self.events.len() - 1;
        while j > 0 && self.events[j - 1].timestamp > e.timestamp
            invariant
                0 <= j <= s.len(),
                self.events@ == s.take(j as int) + seq![e] + s.skip(j as int),
                forall|k: int| j <= k < s.len() ==> e.timestamp < #[trigger] s[k].timestamp,
                self.name == old(self).name,
                self.duration == old(self).duration,
            decreases j,
        {
            let prev = self.events[j - 1];
            self.events.set(j, prev);
            self.events.set(j - 1, e);
            j = j - 1;
            assert(self.events@ =~= s.take(j as int) + seq![e] + s.skip(j as int));
        }
        proof {
            lemma_insert_split(s, e, j as int);
            lemma_insert_sorted(s, e);
        }
    }

    /// Adds a NoteOn at `start_time` and its NoteOff at `start_time + duration`,
    /// keeping the events sorted by timestamp.
    pub fn add_note(&mut self, channel: u8, note: u8, velocity: u8, start_time: u64, duration: u64)
        requires
            old(self).wf(),
            start_time + duration <= u64::MAX,
        ensures
            final(self).wf(),
            final(self).events@ == insert_by_time(
                insert_by_time(
                    old(self).events@,
                    MidiEvent {
                        event_type: MidiEventType::NoteOn,
                        channel,
                        note,
                        velocity,
                        timestamp: start_time,
                    },
                ),
                MidiEvent {
                    event_type: MidiEventType::NoteOff,
                    channel,
                    note,
                    velocity: 0,
                    timestamp: (start_time + duration) as u64,
                },
            ),
            final(self).name == old(self).name,
            final(self).duration == old(self).duration,
    {
        let on = MidiEvent::note_on(channel, note, velocity, start_time);
        let off = MidiEvent::note_off(channel, note, start_time + duration);
        self.insert_event(on);
        self.insert_event(off);
    }

    /// A clip holding the NoteOn/NoteOff pairs of `notes` on channel 0, sorted by time.
    pub fn from_notes(name: &str, duration: u64, notes: &Vec<MidiNoteData>) -> (r: MidiClip)
        requires
            forall|i: int| 0 <= i < notes@.len() ==> note_fits(#[trigger] notes@[i]),
        ensures
            r.wf(),
            r.name@ == name@,
            r.duration == duration,
            r.events@ == events_of_notes(notes@),
    {
        let mut clip = MidiClip::new(name, duration);
        let mut i: usize = 0;
        while i < notes.len()
            invariant
                i <= notes@.len(),
                forall|k: int| 0 <= k < notes@.len() ==> note_fits(#[trigger] notes@[k]),
                clip.wf(),
                clip.name@ == name@,
                clip.duration == duration,
                clip.events@ == events_of_notes(notes@.take(i as int)),
            decreases notes@.len() - i,
        {
            let n = notes[i];
            assert(note_fits(notes@[i as int]));
            clip.add_note(0, n.note, n.velocity, n.start, n.duration);
            assert(notes@.take(i as int + 1).drop_last() =~= notes@.take(i as int));
            i += 1;
        }
        assert(notes@.take(i as int) =~= notes@);
        clip
    }
}

} // verus!

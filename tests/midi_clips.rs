use audio_engine::midi::{MidiClip, MidiEvent, MidiEventType, MidiNoteData};
use audio_engine::mixer::PlacedMidiClip;

#[test]
fn note_events_carry_their_fields() {
    let on = MidiEvent::note_on(1, 69, 127, 42);
    assert_eq!(on.event_type, MidiEventType::NoteOn);
    assert_eq!((on.channel, on.note, on.velocity, on.timestamp), (1, 69, 127, 42));
    let off = MidiEvent::note_off(2, 60, 7);
    assert_eq!(off.event_type, MidiEventType::NoteOff);
    assert_eq!((off.channel, off.note, off.velocity, off.timestamp), (2, 60, 0, 7));
}

#[test]
fn new_clip_is_empty() {
    let c = MidiClip::new("lead", 4096);
    assert_eq!(c.name, "lead");
    assert_eq!(c.duration, 4096);
    assert!(c.events.is_empty());
}

#[test]
fn add_note_keeps_events_sorted() {
    let mut c = MidiClip::new("c", 1000);
    c.add_note(0, 60, 100, 100, 50);
    c.add_note(0, 64, 90, 20, 200);
    let times: Vec<u64> = c.events.iter().map(|e| e.timestamp).collect();
    assert_eq!(times, vec![20, 100, 150, 220]);
    assert_eq!(c.events[0].note, 64);
    assert_eq!(c.events[0].event_type, MidiEventType::NoteOn);
    assert_eq!(c.events[3].event_type, MidiEventType::NoteOff);
    assert_eq!(c.events[3].note, 64);
}

#[test]
fn equal_timestamps_keep_insertion_order() {
    let mut c = MidiClip::new("c", 1000);
    c.add_note(0, 60, 100, 0, 10);
    c.add_note(0, 62, 100, 10, 10);
    let seq: Vec<(u64, u8, MidiEventType)> =
        c.events.iter().map(|e| (e.timestamp, e.note, e.event_type)).collect();
    assert_eq!(
        seq,
        vec![
            (0, 60, MidiEventType::NoteOn),
            (10, 60, MidiEventType::NoteOff),
            (10, 62, MidiEventType::NoteOn),
            (20, 62, MidiEventType::NoteOff),
        ]
    );
}

fn placed() -> PlacedMidiClip {
    let mut inner = MidiClip::new("m", 44100);
    inner.add_note(0, 69, 127, 0, 44100);
    inner.add_note(0, 72, 100, 600, 100);
    PlacedMidiClip { start_time: 1000, inner }
}

#[test]
fn block_dispatch_takes_events_inside_block() {
    let p = placed();
    let mut q = Vec::new();
    p.append_block_events(1000, 512, &mut q);
    assert_eq!(q.len(), 1);
    assert_eq!(q[0].note, 69);
    p.append_block_events(1512, 512, &mut q);
    let notes: Vec<(u8, MidiEventType)> = q.iter().map(|e| (e.note, e.event_type)).collect();
    assert_eq!(
        notes,
        vec![
            (69, MidiEventType::NoteOn),
            (72, MidiEventType::NoteOn),
            (72, MidiEventType::NoteOff),
        ]
    );
}

#[test]
fn block_dispatch_skips_blocks_outside_clip() {
    let p = placed();
    let mut q = Vec::new();
    p.append_block_events(0, 1000, &mut q);
    assert!(q.is_empty());
    p.append_block_events(45100, 512, &mut q);
    assert!(q.is_empty());
}

#[test]
fn midi_synth_block_zero_gets_note_on() {
    let mut inner = MidiClip::new("m", 44101);
    inner.add_note(0, 69, 127, 0, 44100);
    let p = PlacedMidiClip { start_time: 0, inner };
    let mut q = Vec::new();
    p.append_block_events(0, 512, &mut q);
    assert_eq!(q, vec![MidiEvent::note_on(0, 69, 127, 0)]);
    let mut q2 = Vec::new();
    p.append_block_events(44032, 512, &mut q2);
    assert_eq!(q2, vec![MidiEvent::note_off(0, 69, 44100)]);
}

#[test]
fn clip_from_notes_pairs_on_and_off() {
    let notes = vec![
        MidiNoteData { start: 480, duration: 240, note: 67, velocity: 90 },
        MidiNoteData { start: 0, duration: 960, note: 60, velocity: 100 },
    ];
    let c = MidiClip::from_notes("Midi Clip", 1920, &notes);
    assert_eq!(c.name, "Midi Clip");
    assert_eq!(c.duration, 1920);
    let seq: Vec<(u64, u8, MidiEventType, u8)> =
        c.events.iter().map(|e| (e.timestamp, e.note, e.event_type, e.channel)).collect();
    assert_eq!(
        seq,
        vec![
            (0, 60, MidiEventType::NoteOn, 0),
            (480, 67, MidiEventType::NoteOn, 0),
            (720, 67, MidiEventType::NoteOff, 0),
            (960, 60, MidiEventType::NoteOff, 0),
        ]
    );
}

#[test]
fn clip_from_no_notes_is_empty() {
    let c = MidiClip::from_notes("empty", 10, &Vec::new());
    assert!(c.events.is_empty());
}

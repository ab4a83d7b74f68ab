use audio_engine::allocator::{VoiceAllocator, VoiceCommand, VoiceState};
use audio_engine::midi::MidiEvent;

fn busy(a: &VoiceAllocator) -> usize {
    a.voices.iter().filter(|v| **v != VoiceState::Idle).count()
}

#[test]
fn new_allocator_is_idle() {
    let a = VoiceAllocator::new(4);
    assert_eq!(a.num_voices, 4);
    assert_eq!(a.voices, vec![VoiceState::Idle; 4]);
    assert_eq!(a.last_age, 0);
}

#[test]
fn ninth_note_steals_lowest_age_voice() {
    let mut a = VoiceAllocator::new(8);
    for n in 0..8u8 {
        let slot = a.note_on(60 + n, 100);
        assert_eq!(slot, n as usize);
        a.tick();
    }
    assert_eq!(busy(&a), 8);
    let slot = a.note_on(80, 90);
    assert_eq!(slot, 0);
    assert_eq!(a.voices[0], VoiceState::Active { note: 80, velocity: 90, age: 8 });
    assert_eq!(busy(&a), 8);
}

#[test]
fn stealing_ties_go_to_lowest_index() {
    let mut a = VoiceAllocator::new(3);
    a.note_on(1, 10);
    a.note_on(2, 10);
    a.note_on(3, 10);
    assert_eq!(a.note_on(4, 10), 0);
}

#[test]
fn stealing_skips_releasing_voices() {
    let mut a = VoiceAllocator::new(2);
    a.note_on(1, 10);
    a.tick();
    a.note_on(2, 10);
    assert_eq!(a.note_off(1), Some(0));
    assert_eq!(a.note_on(3, 10), 1);
    assert_eq!(a.voices[0], VoiceState::Releasing { note: 1 });
}

#[test]
fn all_releasing_steals_slot_zero() {
    let mut a = VoiceAllocator::new(2);
    a.note_on(1, 10);
    a.note_on(2, 10);
    a.note_off(1);
    a.note_off(2);
    assert_eq!(a.note_on(3, 10), 0);
}

#[test]
fn repeated_note_on_reuses_slot() {
    let mut a = VoiceAllocator::new(4);
    let first = a.note_on(64, 100);
    a.tick();
    let second = a.note_on(64, 50);
    assert_eq!(first, second);
    assert_eq!(busy(&a), 1);
    assert_eq!(a.voices[first], VoiceState::Active { note: 64, velocity: 50, age: 1 });
}

#[test]
fn note_on_revives_releasing_note() {
    let mut a = VoiceAllocator::new(4);
    a.note_on(10, 1);
    a.note_on(64, 100);
    assert_eq!(a.note_off(64), Some(1));
    assert_eq!(a.note_on(64, 70), 1);
    assert_eq!(busy(&a), 2);
}

#[test]
fn note_off_unknown_note_is_ignored() {
    let mut a = VoiceAllocator::new(2);
    a.note_on(60, 100);
    assert_eq!(a.note_off(61), None);
    assert_eq!(a.voices[0], VoiceState::Active { note: 60, velocity: 100, age: 0 });
    assert_eq!(a.note_off(60), Some(0));
    assert_eq!(a.note_off(60), None);
}

#[test]
fn voice_finished_frees_slot() {
    let mut a = VoiceAllocator::new(2);
    a.note_on(60, 100);
    a.note_off(60);
    a.voice_finished(0);
    assert_eq!(a.voices[0], VoiceState::Idle);
    a.voice_finished(5);
    assert_eq!(a.voices.len(), 2);
}

#[test]
fn events_become_voice_commands() {
    let mut a = VoiceAllocator::new(2);
    assert_eq!(a.handle_event(MidiEvent::note_on(0, 69, 127, 0)), VoiceCommand::Start(0));
    assert_eq!(a.handle_event(MidiEvent::note_on(0, 70, 127, 0)), VoiceCommand::Start(1));
    assert_eq!(a.handle_event(MidiEvent::note_off(0, 69, 10)), VoiceCommand::Stop(0));
    assert_eq!(a.handle_event(MidiEvent::note_off(0, 69, 10)), VoiceCommand::Ignore);
    let mut cc = MidiEvent::note_on(0, 1, 2, 0);
    cc.event_type = audio_engine::midi::MidiEventType::ControlChange;
    assert_eq!(a.handle_event(cc), VoiceCommand::Ignore);
    assert_eq!(a.voices[0], VoiceState::Releasing { note: 69 });
}

use audio_engine::dsp::AdsrStage;
use audio_engine::mixer::{Clip, CrossfaderGroup};
use audio_engine::modulation::ModTarget;

#[test]
fn crossfader_group_from_control_value() {
    assert_eq!(CrossfaderGroup::from_index(-1), CrossfaderGroup::A);
    assert_eq!(CrossfaderGroup::from_index(1), CrossfaderGroup::B);
    assert_eq!(CrossfaderGroup::from_index(0), CrossfaderGroup::Thru);
    assert_eq!(CrossfaderGroup::from_index(2), CrossfaderGroup::Thru);
    assert_eq!(CrossfaderGroup::from_index(-7), CrossfaderGroup::Thru);
}

#[test]
fn clip_span_is_half_open() {
    let c = Clip { start_time: 100, duration: 50, offset: 10, asset_id: "kick".to_string() };
    assert!(!c.is_active_at(99));
    assert!(c.is_active_at(100));
    assert!(c.is_active_at(149));
    assert!(!c.is_active_at(150));
    assert_eq!(c.source_index(100), 10);
    assert_eq!(c.source_index(120), 30);
}

#[test]
fn clip_at_end_of_timeline() {
    let c = Clip { start_time: u64::MAX - 1, duration: u64::MAX, offset: 0, asset_id: String::new() };
    assert!(c.is_active_at(u64::MAX));
    assert!(!c.is_active_at(0));
}

#[test]
fn mod_targets_match_on_variant_and_index() {
    assert!(ModTarget::FilterCutoff.matches(&ModTarget::FilterCutoff));
    assert!(!ModTarget::FilterCutoff.matches(&ModTarget::Gain));
    assert!(ModTarget::OscPitch(1).matches(&ModTarget::OscPitch(1)));
    assert!(!ModTarget::OscPitch(1).matches(&ModTarget::OscPitch(0)));
    assert!(!ModTarget::OscPitch(0).matches(&ModTarget::OscWave(0)));
}

#[test]
fn adsr_stage_activity() {
    assert!(!AdsrStage::Idle.is_active());
    assert!(AdsrStage::Attack.is_active());
    assert!(AdsrStage::Release.is_active());
}

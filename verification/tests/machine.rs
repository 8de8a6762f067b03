use spec_chum::machine::{advance_frame_t, MachineBuildError, Model, TapeDeck, TapeLoadOptions, TapeProgress};
use spec_chum::tap::{TapImage, TapPlayer, EXPERIENCE_EAR_SPEED, PILOT_PULSE_T};
use spec_chum::tzx::TzxPlayer;

fn tzx_two_tones() -> Vec<u8> {
    let mut v = Vec::new();
    v.extend_from_slice(b"ZXTape!");
    v.extend_from_slice(&[0x1a, 1, 20]);
    for count in [4u16, 6] {
        v.push(0x12);
        v.extend_from_slice(&1000u16.to_le_bytes());
        v.extend_from_slice(&count.to_le_bytes());
    }
    v
}

#[test]
fn frame_counter_carries_the_remainder() {
    let mut t = 69_000u32;
    assert!(advance_frame_t(&mut t, 1_000, 69_888));
    assert_eq!(t, 112);
    assert!(!advance_frame_t(&mut t, 100, 69_888));
    assert_eq!(t, 212);
}

#[test]
fn tape_options_defaults_and_speed_clamp() {
    let d = TapeLoadOptions::default();
    assert_eq!(d, TapeLoadOptions { flash_load: false, speed: 1, experience_load: false });
    assert_eq!(d.with_speed(0).speed, 1);
    assert_eq!(d.with_speed(200).speed, 64);
    let e = TapeLoadOptions::experience();
    assert!(e.experience_load);
    assert_eq!(e.speed, EXPERIENCE_EAR_SPEED);
    assert!(!e.with_speed(4).experience_load);
}

#[test]
fn normalized_options_prefer_experience_over_flash() {
    let o = TapeLoadOptions { flash_load: true, speed: 3, experience_load: true }.normalized();
    assert_eq!(o, TapeLoadOptions { flash_load: false, speed: EXPERIENCE_EAR_SPEED, experience_load: true });
    let o = TapeLoadOptions { flash_load: true, speed: 99, experience_load: false }.normalized();
    assert_eq!(o, TapeLoadOptions { flash_load: true, speed: 64, experience_load: false });
}

#[test]
fn model_classes() {
    assert!(Model::SpectrumPlus2A.is_amstrad_plus());
    assert!(Model::SpectrumPlus3.is_amstrad_plus());
    assert!(!Model::SpectrumPlus3e.is_amstrad_plus());
    assert!(Model::Pentagon128.is_128k_class());
    assert!(!Model::SpectrumPlus3.is_128k_class());
    assert!(Model::TimexTS2068.is_48k_class());
    assert!(!Model::Spectrum128.is_48k_class());
}

#[test]
fn build_error_text() {
    assert_eq!(MachineBuildError::InvalidRom("size 3".to_string()).to_string(), "invalid ROM: size 3");
}

#[test]
fn tzx_deck_reports_block_relative_progress() {
    let mut deck = TapeDeck::Tzx(TzxPlayer::parse(&tzx_two_tones()).unwrap());
    assert_eq!(deck.block(), Some(0));
    assert_eq!(deck.block_count(), 2);
    assert_eq!(deck.pulse_count(), 4);
    assert!(deck.playing());
    assert!(deck.as_tap_mut().is_none());
    for _ in 0..5 {
        deck.advance(1000);
    }
    assert_eq!(deck.block(), Some(1));
    assert_eq!(deck.pulse_count(), 6);
    assert_eq!(deck.pulse_index(), 0);
    deck.rewind();
    assert!(!deck.playing());
    assert_eq!(deck.block(), Some(0));
    assert!(!deck.finished());
}

#[test]
fn tap_deck_forwards_to_the_player() {
    let img = TapImage { blocks: vec![vec![0x00, 0x00]], ..Default::default() };
    let mut deck = TapeDeck::Tap(TapPlayer::new(img));
    assert_eq!(deck.block_count(), 1);
    deck.set_playing(false);
    assert!(!deck.playing());
    deck.set_playing(true);
    assert!(deck.advance(PILOT_PULSE_T / 2));
    assert_eq!(deck.pulse_index(), 0);
    match deck.as_tap_mut() {
        Some(t) => t.consume_block(),
        None => panic!("TAP deck"),
    }
    assert!(deck.finished());
}

#[test]
fn progress_is_plain_data() {
    let p = TapeProgress { block_index: 1, block_count: 2, pulse_index: 3, pulse_count: 4 };
    assert_eq!(p, TapeProgress { block_index: 1, block_count: 2, pulse_index: 3, pulse_count: 4 });
    assert_eq!(TapeProgress::default().block_count, 0);
}

use spec_chum::tap::PILOT_PULSE_T;
use spec_chum::tzx::{TzxError, TzxPlayer};

fn minimal_tzx_standard(payload: &[u8]) -> Vec<u8> {
    let mut v = Vec::new();
    v.extend_from_slice(b"ZXTape!");
    v.push(0x1a);
    v.push(1);
    v.push(20);
    v.push(0x10);
    v.extend_from_slice(&1000u16.to_le_bytes());
    v.extend_from_slice(&(payload.len() as u16).to_le_bytes());
    v.extend_from_slice(payload);
    v.push(0x20);
    v.extend_from_slice(&0u16.to_le_bytes());
    v
}

fn tzx_header() -> Vec<u8> {
    let mut v = Vec::new();
    v.extend_from_slice(b"ZXTape!");
    v.extend_from_slice(&[0x1a, 1, 20]);
    v
}

fn append_id10(v: &mut Vec<u8>, payload: &[u8], pause_ms: u16) {
    v.push(0x10);
    v.extend_from_slice(&pause_ms.to_le_bytes());
    v.extend_from_slice(&(payload.len() as u16).to_le_bytes());
    v.extend_from_slice(payload);
}

fn append_pure_tone(v: &mut Vec<u8>, len: u16, count: u16) {
    v.push(0x12);
    v.extend_from_slice(&len.to_le_bytes());
    v.extend_from_slice(&count.to_le_bytes());
}

fn err_text(e: &TzxError) -> String {
    e.to_string()
}

#[test]
fn parse_standard_block_schedules_pulses() {
    let data = minimal_tzx_standard(&[0x00, 0x41, 0x00]);
    let p = TzxPlayer::parse(&data).unwrap();
    assert!(p.scheduled_pulses() > 10);
    let mut p = p;
    let _ = p.advance(PILOT_PULSE_T);
    assert!(!p.ear_level(), "first pilot is low (Fuse LEVEL_LOW / classic start)");
    let _ = p.advance(PILOT_PULSE_T);
    assert!(p.ear_level(), "second pilot toggles high");
    let _ = p.advance(PILOT_PULSE_T);
    assert!(!p.ear_level(), "third pilot pulse is low");
}

#[test]
fn to_tap_extracts_id10() {
    let payload = vec![0xff, 1, 2, 3, 0];
    let data = minimal_tzx_standard(&payload);
    let tap = TzxPlayer::to_tap_image(&data).unwrap();
    assert_eq!(tap.blocks.len(), 1);
    assert_eq!(tap.blocks[0], payload);
    assert_eq!(tap.pause_t.len(), 1);
    assert_eq!(tap.pause_t[0], 1000 * 3500);
}

#[test]
fn pure_data_used_bits_are_most_significant() {
    let mut v = Vec::new();
    v.extend_from_slice(b"ZXTape!");
    v.extend_from_slice(&[0x1a, 1, 20]);
    v.push(0x14);
    v.extend_from_slice(&100u16.to_le_bytes());
    v.extend_from_slice(&200u16.to_le_bytes());
    v.push(6);
    v.extend_from_slice(&0u16.to_le_bytes());
    v.extend_from_slice(&1u32.to_le_bytes()[..3]);
    v.push(0b1110_1000);
    let p = TzxPlayer::parse(&v).unwrap();
    assert_eq!(p.scheduled_pulses(), 12, "6 bits × 2 edges");
    let expect = [200u32, 200, 200, 200, 200, 200, 100, 100, 200, 200, 100, 100];
    let got: Vec<u32> = p.pulses.iter().map(|(d, _)| *d).collect();
    assert_eq!(got, expect, "MSB-first bit order for used_bits=6");
}

#[test]
fn pure_tone_block() {
    let mut v = Vec::new();
    v.extend_from_slice(b"ZXTape!");
    v.extend_from_slice(&[0x1a, 1, 20]);
    v.push(0x12);
    v.extend_from_slice(&1000u16.to_le_bytes());
    v.extend_from_slice(&4u16.to_le_bytes());
    let p = TzxPlayer::parse(&v).unwrap();
    assert_eq!(p.scheduled_pulses(), 4);
}

#[test]
fn advance_clears_playing_on_exact_final_pulse_boundary() {
    let mut v = Vec::new();
    v.extend_from_slice(b"ZXTape!");
    v.extend_from_slice(&[0x1a, 1, 20]);
    v.push(0x12);
    v.extend_from_slice(&1000u16.to_le_bytes());
    v.extend_from_slice(&2u16.to_le_bytes());
    let mut p = TzxPlayer::parse(&v).unwrap();
    assert!(p.playing);
    assert_eq!(p.scheduled_pulses(), 2);
    let _ = p.advance(1000);
    assert!(p.playing, "exact end of first pulse must not clear playing yet");
    let _ = p.advance(1000);
    assert!(!p.playing, "exact final pulse boundary must clear playing immediately");
    assert!(p.finished());
    assert!(!p.ear_level(), "EAR must idle low after exact end");
}

#[test]
fn advance_clears_high_ear_on_exact_final_pulse_end() {
    let mut v = Vec::new();
    v.extend_from_slice(b"ZXTape!");
    v.extend_from_slice(&[0x1a, 1, 20]);
    v.push(0x12);
    v.extend_from_slice(&1000u16.to_le_bytes());
    v.extend_from_slice(&2u16.to_le_bytes());
    let mut p = TzxPlayer::parse(&v).unwrap();
    assert_eq!(p.scheduled_pulses(), 2);
    let _ = p.advance(1000);
    let mid = p.advance(500);
    assert!(mid && p.ear_level(), "second pure-tone pulse should be high");
    let level = p.advance(500);
    assert!(!p.playing);
    assert!(p.finished());
    assert!(!level, "exact end must return low EAR");
    assert!(!p.ear_level(), "exact end must clear latched high EAR");
}

#[test]
fn standard_then_pure_tone_keeps_alternating_levels() {
    let mut v = Vec::new();
    v.extend_from_slice(b"ZXTape!");
    v.extend_from_slice(&[0x1a, 1, 20]);
    v.push(0x10);
    v.extend_from_slice(&0u16.to_le_bytes());
    let payload = [0x00u8, 0x41, 0x00];
    v.extend_from_slice(&(payload.len() as u16).to_le_bytes());
    v.extend_from_slice(&payload);
    v.push(0x12);
    v.extend_from_slice(&500u16.to_le_bytes());
    v.extend_from_slice(&3u16.to_le_bytes());
    let p = TzxPlayer::parse(&v).unwrap();
    for w in p.pulses.windows(2) {
        if w[0].1 == w[1].1 {
            assert!(!w[0].1, "only low (Fuse LEVEL_LOW) may repeat across 0x10 pause→0x12");
        }
    }
}

#[test]
fn standard_then_pulse_sequence_keeps_alternating_levels() {
    let mut v = Vec::new();
    v.extend_from_slice(b"ZXTape!");
    v.extend_from_slice(&[0x1a, 1, 20]);
    v.push(0x10);
    v.extend_from_slice(&0u16.to_le_bytes());
    let payload = [0xffu8, 1, 2, 0];
    v.extend_from_slice(&(payload.len() as u16).to_le_bytes());
    v.extend_from_slice(&payload);
    v.push(0x13);
    v.push(2);
    v.extend_from_slice(&400u16.to_le_bytes());
    v.extend_from_slice(&500u16.to_le_bytes());
    let p = TzxPlayer::parse(&v).unwrap();
    for w in p.pulses.windows(2) {
        if w[0].1 == w[1].1 {
            assert!(!w[0].1, "only low (Fuse LEVEL_LOW) may repeat across 0x10→0x13");
        }
    }
}

#[test]
fn standard_block_starts_low_after_tape_start() {
    let data = minimal_tzx_standard(&[0x00, 0x41, 0x00]);
    let p = TzxPlayer::parse(&data).unwrap();
    assert!(!p.pulses[0].1, "first pilot pulse must be low");
    assert!(p.pulses[1].1, "second pilot toggles high");
    assert!(!p.pulses[2].1, "third pilot pulse must be low");
}

#[test]
fn pure_data_pause_matches_fuse_polarity_before_next_tone() {
    let mut v = Vec::new();
    v.extend_from_slice(b"ZXTape!");
    v.extend_from_slice(&[0x1a, 1, 20]);
    v.push(0x14);
    v.extend_from_slice(&100u16.to_le_bytes());
    v.extend_from_slice(&200u16.to_le_bytes());
    v.push(8);
    v.extend_from_slice(&1750u16.to_le_bytes());
    v.extend_from_slice(&1u32.to_le_bytes()[..3]);
    v.push(0x01);
    v.push(0x12);
    v.extend_from_slice(&2165u16.to_le_bytes());
    v.extend_from_slice(&4u16.to_le_bytes());
    let p = TzxPlayer::parse(&v).unwrap();
    assert_eq!(p.scheduled_pulses(), 16 + 1 + 4);
    let pause = p.pulses[16];
    let tone0 = p.pulses[17];
    assert_eq!(pause.0, 1750 * 3500);
    assert!(!pause.1, "pause starts low after final data half-pulse high");
    assert_eq!(tone0.0, 2165);
    assert!(!tone0.1, "next Pure Tone starts low (Fuse LEVEL_LOW)");
    assert_eq!(p.pulses[18].0, 2165);
    assert!(p.pulses[18].1, "second tone pulse toggles high");
}

#[test]
fn standard_only_detects_boggit_style() {
    let data = minimal_tzx_standard(&[0x00, 0x41, 0x00]);
    assert!(TzxPlayer::is_standard_speed_only(&data));
}

#[test]
fn paused_player_does_not_advance() {
    let data = minimal_tzx_standard(&[0xff, 1, 2, 3, 0]);
    let mut p = TzxPlayer::parse(&data).unwrap();
    p.set_playing(false);
    let before = p.scheduled_pulses();
    let _ = p.advance(1_000_000);
    assert_eq!(p.scheduled_pulses(), before);
    assert_eq!(p.block, 0);
}

#[test]
fn active_pulse_counters_are_block_relative() {
    let mut v = Vec::new();
    v.extend_from_slice(b"ZXTape!");
    v.extend_from_slice(&[0x1a, 1, 20]);
    v.push(0x12);
    v.extend_from_slice(&1000u16.to_le_bytes());
    v.extend_from_slice(&4u16.to_le_bytes());
    v.push(0x12);
    v.extend_from_slice(&1000u16.to_le_bytes());
    v.extend_from_slice(&6u16.to_le_bytes());
    let mut p = TzxPlayer::parse(&v).unwrap();
    assert_eq!(p.block_count(), 2);
    assert_eq!(p.active_pulse_index(), 0);
    assert_eq!(p.active_pulse_count(), 4);
    assert_eq!(p.scheduled_pulses(), 10);
    while p.block == 0 {
        let _ = p.advance(1000);
    }
    assert_eq!(p.block, 1);
    assert_eq!(p.active_pulse_count(), 6);
    assert!(p.active_pulse_index() < p.active_pulse_count());
    assert!(p.playing);
}

#[test]
fn empty_tzx_reports_zero_blocks() {
    let mut v = Vec::new();
    v.extend_from_slice(b"ZXTape!");
    v.extend_from_slice(&[0x1a, 1, 20]);
    let p = TzxPlayer::parse(&v).unwrap();
    assert_eq!(p.block_count(), 0);
    assert_eq!(p.active_pulse_count(), 0);
    assert_eq!(p.scheduled_pulses(), 0);
    assert!(p.finished());
    assert!(!p.playing);
}

fn minimal_tzx_turbo(payload: &[u8]) -> Vec<u8> {
    let mut v = Vec::new();
    v.extend_from_slice(b"ZXTape!");
    v.extend_from_slice(&[0x1a, 1, 20]);
    v.push(0x11);
    v.extend_from_slice(&800u16.to_le_bytes());
    v.extend_from_slice(&400u16.to_le_bytes());
    v.extend_from_slice(&400u16.to_le_bytes());
    v.extend_from_slice(&300u16.to_le_bytes());
    v.extend_from_slice(&600u16.to_le_bytes());
    v.extend_from_slice(&10u16.to_le_bytes());
    v.push(8);
    v.extend_from_slice(&100u16.to_le_bytes());
    let len = payload.len() as u32;
    v.push((len & 0xff) as u8);
    v.push(((len >> 8) & 0xff) as u8);
    v.push(((len >> 16) & 0xff) as u8);
    v.extend_from_slice(payload);
    v
}

#[test]
fn turbo_block_schedules_custom_pulse_widths() {
    let payload = [0xffu8, 0x00];
    let data = minimal_tzx_turbo(&payload);
    let p = TzxPlayer::parse(&data).unwrap();
    assert_eq!(p.scheduled_pulses(), 45);
    assert_eq!(p.pulses[0].0, 800);
    assert_eq!(p.pulses[9].0, 800);
    assert_eq!(p.pulses[10].0, 400);
    assert_eq!(p.pulses[11].0, 400);
    assert_eq!(p.pulses[12].0, 600);
    assert_eq!(p.pulses[12 + 16].0, 300);
    assert!(!TzxPlayer::is_standard_speed_only(&data));
}

#[test]
fn to_tap_image_skips_turbo_blocks() {
    let data = minimal_tzx_turbo(&[0xff, 1, 2, 0]);
    let tap = TzxPlayer::to_tap_image(&data).unwrap();
    assert!(tap.blocks.is_empty(), "flash/TAP path must not extract ID 0x11 payloads");
}

#[test]
fn zero_pulse_blocks_sync_logical_index() {
    let mut v = Vec::new();
    v.extend_from_slice(b"ZXTape!");
    v.extend_from_slice(&[0x1a, 1, 20]);
    v.push(0x12);
    v.extend_from_slice(&1000u16.to_le_bytes());
    v.extend_from_slice(&0u16.to_le_bytes());
    v.push(0x12);
    v.extend_from_slice(&1000u16.to_le_bytes());
    v.extend_from_slice(&3u16.to_le_bytes());
    v.push(0x20);
    v.extend_from_slice(&0u16.to_le_bytes());
    let mut p = TzxPlayer::parse(&v).unwrap();
    assert_eq!(p.block_count(), 3);
    assert_eq!(p.block, 1);
    assert_eq!(p.active_pulse_count(), 3);
    assert_eq!(p.active_pulse_index(), 0);
    while p.pulse_i < p.scheduled_pulses() {
        let _ = p.advance(10_000);
    }
    assert_eq!(p.block, 2);
    assert_eq!(p.active_pulse_count(), 0);
}

#[test]
fn loop_start_end_expands_pure_tone() {
    let mut v = Vec::new();
    v.extend_from_slice(b"ZXTape!");
    v.extend_from_slice(&[0x1a, 1, 20]);
    v.push(0x24);
    v.extend_from_slice(&3u16.to_le_bytes());
    v.push(0x12);
    v.extend_from_slice(&1000u16.to_le_bytes());
    v.extend_from_slice(&2u16.to_le_bytes());
    v.push(0x25);
    let p = TzxPlayer::parse(&v).unwrap();
    assert_eq!(p.scheduled_pulses(), 6, "3×2 pulses from looped pure tone");
    assert_eq!(p.block_count(), 3);
}

#[test]
fn jump_skips_next_block() {
    let mut v = tzx_header();
    v.push(0x23);
    v.extend_from_slice(&2i16.to_le_bytes());
    append_pure_tone(&mut v, 1000, 4);
    append_pure_tone(&mut v, 1000, 2);
    let p = TzxPlayer::parse(&v).unwrap();
    assert_eq!(p.scheduled_pulses(), 2, "Jump +2 must skip the 4-pulse tone");
}

#[test]
fn call_sequence_plays_subroutine_then_resumes() {
    let mut v = tzx_header();
    v.push(0x26);
    v.extend_from_slice(&1u16.to_le_bytes());
    v.extend_from_slice(&3i16.to_le_bytes());
    append_pure_tone(&mut v, 1000, 1);
    v.push(0x23);
    v.extend_from_slice(&3i16.to_le_bytes());
    append_pure_tone(&mut v, 1000, 3);
    v.push(0x27);
    let p = TzxPlayer::parse(&v).unwrap();
    assert_eq!(p.scheduled_pulses(), 4, "Call must play 3-pulse subroutine then 1-pulse resume");
}

#[test]
fn select_auto_picks_first_entry() {
    let mut v = tzx_header();
    v.push(0x28);
    let desc = b"part";
    let body_len = 1 + 2 + 1 + desc.len();
    v.extend_from_slice(&(body_len as u16).to_le_bytes());
    v.push(1);
    v.extend_from_slice(&2i16.to_le_bytes());
    v.push(desc.len() as u8);
    v.extend_from_slice(desc);
    append_pure_tone(&mut v, 1000, 5);
    append_pure_tone(&mut v, 1000, 2);
    let p = TzxPlayer::parse(&v).unwrap();
    assert_eq!(p.scheduled_pulses(), 2, "Select must jump to first entry");
}

#[test]
fn jump_relative_zero_is_rejected() {
    let mut v = tzx_header();
    v.push(0x23);
    v.extend_from_slice(&0i16.to_le_bytes());
    let err = TzxPlayer::parse(&v).expect_err("rel 0 must Err");
    assert!(err_text(&err).contains("infinite"), "got {}", err_text(&err));
}

#[test]
fn loop_reps_zero_skips_body() {
    let mut v = Vec::new();
    v.extend_from_slice(b"ZXTape!");
    v.extend_from_slice(&[0x1a, 1, 20]);
    v.push(0x24);
    v.extend_from_slice(&0u16.to_le_bytes());
    v.push(0x12);
    v.extend_from_slice(&1000u16.to_le_bytes());
    v.extend_from_slice(&4u16.to_le_bytes());
    v.push(0x25);
    v.push(0x12);
    v.extend_from_slice(&500u16.to_le_bytes());
    v.extend_from_slice(&1u16.to_le_bytes());
    let p = TzxPlayer::parse(&v).unwrap();
    assert_eq!(p.scheduled_pulses(), 1, "reps=0 must skip loop body");
}

#[test]
fn loop_around_standard_blocks_not_flash_convertible() {
    let mut v = Vec::new();
    v.extend_from_slice(b"ZXTape!");
    v.extend_from_slice(&[0x1a, 1, 20]);
    v.push(0x24);
    v.extend_from_slice(&3u16.to_le_bytes());
    v.push(0x10);
    v.extend_from_slice(&100u16.to_le_bytes());
    let payload = [0xffu8, 1, 2, 0];
    v.extend_from_slice(&(payload.len() as u16).to_le_bytes());
    v.extend_from_slice(&payload);
    v.push(0x25);
    assert!(!TzxPlayer::is_standard_speed_only(&v), "loop markers must disable flash/TAP-only conversion");
    let p = TzxPlayer::parse(&v).unwrap();
    assert_eq!(p.block_count(), 3, "parse must expand 0x10 three times via Loop Start/End");
}

#[test]
fn loop_expansion_respects_pulse_budget() {
    let mut v = Vec::new();
    v.extend_from_slice(b"ZXTape!");
    v.extend_from_slice(&[0x1a, 1, 20]);
    v.push(0x24);
    v.extend_from_slice(&u16::MAX.to_le_bytes());
    v.push(0x12);
    v.extend_from_slice(&1u16.to_le_bytes());
    v.extend_from_slice(&4096u16.to_le_bytes());
    v.push(0x25);
    let err = TzxPlayer::parse(&v).expect_err("pathological loop must fail");
    assert!(err_text(&err).contains("exceeded"), "expected pulse-budget Format error, got {}", err_text(&err));
}

#[test]
fn nested_empty_loops_hit_replay_budget() {
    let mut v = Vec::new();
    v.extend_from_slice(b"ZXTape!");
    v.extend_from_slice(&[0x1a, 1, 20]);
    v.push(0x24);
    v.extend_from_slice(&u16::MAX.to_le_bytes());
    v.push(0x24);
    v.extend_from_slice(&u16::MAX.to_le_bytes());
    v.push(0x25);
    v.push(0x25);
    let err = TzxPlayer::parse(&v).expect_err("empty nested loops must fail");
    assert!(err_text(&err).contains("replay"), "expected loop-replay budget error, got {}", err_text(&err));
}

#[test]
fn to_tap_image_skips_loop_markers_and_keeps_id10() {
    let mut v = Vec::new();
    v.extend_from_slice(b"ZXTape!");
    v.extend_from_slice(&[0x1a, 1, 20]);
    v.push(0x10);
    v.extend_from_slice(&100u16.to_le_bytes());
    let first = [0xffu8, 1, 2, 0];
    v.extend_from_slice(&(first.len() as u16).to_le_bytes());
    v.extend_from_slice(&first);
    v.push(0x24);
    v.extend_from_slice(&2u16.to_le_bytes());
    v.push(0x12);
    v.extend_from_slice(&100u16.to_le_bytes());
    v.extend_from_slice(&2u16.to_le_bytes());
    v.push(0x25);
    v.push(0x10);
    v.extend_from_slice(&50u16.to_le_bytes());
    let second = [0x00u8, 0x41, 0x00];
    v.extend_from_slice(&(second.len() as u16).to_le_bytes());
    v.extend_from_slice(&second);
    let tap = TzxPlayer::to_tap_image(&v).unwrap();
    assert_eq!(tap.blocks.len(), 2, "loop markers must be skipped so trailing 0x10 is still extracted");
    assert_eq!(tap.blocks[0], first);
    assert_eq!(tap.blocks[1], second);
    assert!(!TzxPlayer::is_standard_speed_only(&v), "0x12 inside the loop keeps this off the flash/TAP-only path");
}

/// Whether a supported block is expected to schedule pulses or parse as an
/// empty schedule.
#[derive(Clone, Copy)]
enum Expect {
    Pulses,
    SkipOk,
}

struct Case {
    id: u8,
    name: &'static str,
    expect: Expect,
    build: fn() -> Vec<u8>,
}

fn case_10() -> Vec<u8> {
    let mut v = tzx_header();
    append_id10(&mut v, &[0x00, 0x41, 0x00], 100);
    v
}

fn case_11() -> Vec<u8> {
    let mut v = tzx_header();
    v.push(0x11);
    v.extend_from_slice(&800u16.to_le_bytes());
    v.extend_from_slice(&400u16.to_le_bytes());
    v.extend_from_slice(&400u16.to_le_bytes());
    v.extend_from_slice(&300u16.to_le_bytes());
    v.extend_from_slice(&600u16.to_le_bytes());
    v.extend_from_slice(&10u16.to_le_bytes());
    v.push(8);
    v.extend_from_slice(&0u16.to_le_bytes());
    let payload = [0xffu8, 0x00];
    v.extend_from_slice(&(payload.len() as u32).to_le_bytes()[..3]);
    v.extend_from_slice(&payload);
    v
}

fn case_12() -> Vec<u8> {
    let mut v = tzx_header();
    append_pure_tone(&mut v, 1000, 4);
    v
}

fn case_13() -> Vec<u8> {
    let mut v = tzx_header();
    v.push(0x13);
    v.push(3);
    v.extend_from_slice(&500u16.to_le_bytes());
    v.extend_from_slice(&600u16.to_le_bytes());
    v.extend_from_slice(&700u16.to_le_bytes());
    v
}

fn case_14() -> Vec<u8> {
    let mut v = tzx_header();
    v.push(0x14);
    v.extend_from_slice(&100u16.to_le_bytes());
    v.extend_from_slice(&200u16.to_le_bytes());
    v.push(8);
    v.extend_from_slice(&0u16.to_le_bytes());
    let payload = [0xa5u8];
    v.extend_from_slice(&(payload.len() as u32).to_le_bytes()[..3]);
    v.extend_from_slice(&payload);
    v
}

fn case_15() -> Vec<u8> {
    let mut v = tzx_header();
    v.push(0x15);
    v.extend_from_slice(&158u16.to_le_bytes());
    v.extend_from_slice(&0u16.to_le_bytes());
    v.push(8);
    let samples = [0b1010_1010u8];
    v.extend_from_slice(&(samples.len() as u32).to_le_bytes()[..3]);
    v.extend_from_slice(&samples);
    v
}

fn case_18() -> Vec<u8> {
    let mut v = tzx_header();
    v.push(0x18);
    let csw = [10u8, 20, 30];
    let body_len = 10 + csw.len();
    v.extend_from_slice(&(body_len as u32).to_le_bytes());
    v.extend_from_slice(&0u16.to_le_bytes());
    v.extend_from_slice(&22_050u32.to_le_bytes()[..3]);
    v.push(0x01);
    v.extend_from_slice(&(csw.len() as u32).to_le_bytes());
    v.extend_from_slice(&csw);
    v
}

fn case_19() -> Vec<u8> {
    let mut v = tzx_header();
    v.push(0x19);
    let mut body = Vec::new();
    body.extend_from_slice(&0u16.to_le_bytes());
    body.extend_from_slice(&0u32.to_le_bytes());
    body.push(0);
    body.push(0);
    body.extend_from_slice(&1u32.to_le_bytes());
    body.push(1);
    body.push(2);
    body.push(0x00);
    body.extend_from_slice(&500u16.to_le_bytes());
    body.push(0x00);
    body.extend_from_slice(&1000u16.to_le_bytes());
    body.push(0x00);
    v.extend_from_slice(&(body.len() as u32).to_le_bytes());
    v.extend_from_slice(&body);
    v
}

fn case_20() -> Vec<u8> {
    let mut v = tzx_header();
    v.push(0x20);
    v.extend_from_slice(&10u16.to_le_bytes());
    v
}

fn case_21() -> Vec<u8> {
    let mut v = tzx_header();
    v.push(0x21);
    let name = b"grp";
    v.push(name.len() as u8);
    v.extend_from_slice(name);
    v
}

fn case_22() -> Vec<u8> {
    let mut v = tzx_header();
    v.push(0x22);
    v
}

fn case_23() -> Vec<u8> {
    let mut v = tzx_header();
    v.push(0x23);
    v.extend_from_slice(&2i16.to_le_bytes());
    append_pure_tone(&mut v, 1000, 4);
    append_pure_tone(&mut v, 1000, 2);
    v
}

fn case_24() -> Vec<u8> {
    let mut v = tzx_header();
    v.push(0x24);
    v.extend_from_slice(&2u16.to_le_bytes());
    append_pure_tone(&mut v, 1000, 2);
    v.push(0x25);
    v
}

fn case_26() -> Vec<u8> {
    let mut v = tzx_header();
    v.push(0x26);
    v.extend_from_slice(&1u16.to_le_bytes());
    v.extend_from_slice(&3i16.to_le_bytes());
    append_pure_tone(&mut v, 1000, 1);
    v.push(0x23);
    v.extend_from_slice(&3i16.to_le_bytes());
    append_pure_tone(&mut v, 1000, 2);
    v.push(0x27);
    v
}

fn case_28() -> Vec<u8> {
    let mut v = tzx_header();
    v.push(0x28);
    let desc = b"A";
    let body_len = 1 + 2 + 1 + desc.len();
    v.extend_from_slice(&(body_len as u16).to_le_bytes());
    v.push(1);
    v.extend_from_slice(&2i16.to_le_bytes());
    v.push(desc.len() as u8);
    v.extend_from_slice(desc);
    append_pure_tone(&mut v, 1000, 4);
    append_pure_tone(&mut v, 1000, 2);
    v
}

fn case_2a() -> Vec<u8> {
    let mut v = tzx_header();
    v.push(0x2a);
    v.extend_from_slice(&0u32.to_le_bytes());
    v
}

fn case_2b() -> Vec<u8> {
    let mut v = tzx_header();
    v.push(0x2b);
    v.extend_from_slice(&1u32.to_le_bytes());
    v.push(1);
    v
}

fn case_30() -> Vec<u8> {
    let mut v = tzx_header();
    v.push(0x30);
    let text = b"hi";
    v.push(text.len() as u8);
    v.extend_from_slice(text);
    v
}

fn case_32() -> Vec<u8> {
    let mut v = tzx_header();
    v.push(0x32);
    let body = [0x00u8, 1, b'x'];
    v.extend_from_slice(&(body.len() as u16).to_le_bytes());
    v.extend_from_slice(&body);
    v
}

fn case_33() -> Vec<u8> {
    let mut v = tzx_header();
    v.push(0x33);
    v.push(1);
    v.extend_from_slice(&[0x00, 0x00, 0x00]);
    v
}

fn case_35() -> Vec<u8> {
    let mut v = tzx_header();
    v.push(0x35);
    v.extend_from_slice(b"CUSTOMINFOBLOCK!");
    v.extend_from_slice(&0u32.to_le_bytes());
    v
}

fn case_5a() -> Vec<u8> {
    let mut v = tzx_header();
    v.push(0x5a);
    v.extend_from_slice(&[0; 9]);
    v
}

#[test]
fn tzx_block_matrix_supported_ids_parse() {
    let cases: &[Case] = &[
        Case { id: 0x10, name: "Standard Speed Data", expect: Expect::Pulses, build: case_10 },
        Case { id: 0x11, name: "Turbo Speed Data", expect: Expect::Pulses, build: case_11 },
        Case { id: 0x12, name: "Pure Tone", expect: Expect::Pulses, build: case_12 },
        Case { id: 0x13, name: "Pulse Sequence", expect: Expect::Pulses, build: case_13 },
        Case { id: 0x14, name: "Pure Data", expect: Expect::Pulses, build: case_14 },
        Case { id: 0x15, name: "Direct recording", expect: Expect::Pulses, build: case_15 },
        Case { id: 0x18, name: "CSW recording (RLE)", expect: Expect::Pulses, build: case_18 },
        Case { id: 0x19, name: "Generalized data", expect: Expect::Pulses, build: case_19 },
        Case { id: 0x20, name: "Pause", expect: Expect::Pulses, build: case_20 },
        Case { id: 0x21, name: "Group Start", expect: Expect::SkipOk, build: case_21 },
        Case { id: 0x22, name: "Group End", expect: Expect::SkipOk, build: case_22 },
        Case { id: 0x23, name: "Jump to block", expect: Expect::Pulses, build: case_23 },
        Case { id: 0x24, name: "Loop Start/End", expect: Expect::Pulses, build: case_24 },
        Case { id: 0x26, name: "Call sequence / Return", expect: Expect::Pulses, build: case_26 },
        Case { id: 0x28, name: "Select block (first entry)", expect: Expect::Pulses, build: case_28 },
        Case { id: 0x2a, name: "Stop if 48K (accepted no-op)", expect: Expect::SkipOk, build: case_2a },
        Case { id: 0x2b, name: "Set signal level", expect: Expect::SkipOk, build: case_2b },
        Case { id: 0x30, name: "Text description", expect: Expect::SkipOk, build: case_30 },
        Case { id: 0x32, name: "Archive info", expect: Expect::SkipOk, build: case_32 },
        Case { id: 0x33, name: "Hardware type", expect: Expect::SkipOk, build: case_33 },
        Case { id: 0x35, name: "Custom info", expect: Expect::SkipOk, build: case_35 },
        Case { id: 0x5a, name: "Glue block", expect: Expect::SkipOk, build: case_5a },
    ];
    for case in cases {
        let data = (case.build)();
        let p = TzxPlayer::parse(&data).unwrap_or_else(|e| {
            panic!("supported TZX 0x{:02x} ({}) must parse: {}", case.id, case.name, err_text(&e))
        });
        match case.expect {
            Expect::Pulses => assert!(
                p.scheduled_pulses() > 0,
                "0x{:02x} ({}) must schedule pulses, got 0",
                case.id,
                case.name
            ),
            Expect::SkipOk => assert_eq!(
                p.scheduled_pulses(),
                0,
                "0x{:02x} ({}) is info/skip-only — expect empty schedule",
                case.id,
                case.name
            ),
        }
    }
}

#[test]
fn tzx_block_matrix_unsupported_ids_fail_loudly() {
    const UNSUPPORTED: &[u8] = &[0x16, 0x17, 0x34, 0x40];
    for &id in UNSUPPORTED {
        let mut v = tzx_header();
        v.push(id);
        v.extend_from_slice(&[0u8; 16]);
        let err = TzxPlayer::parse(&v).expect_err("unsupported ID must Err");
        let msg = err_text(&err);
        assert!(
            msg.contains(&format!("0x{id:02x}")) || msg.contains(&format!("0x{id:02X}")),
            "error must name block ID 0x{id:02x}, got {msg}"
        );
        assert!(msg.to_ascii_lowercase().contains("unsupported"), "error must say unsupported, got {msg}");
    }
}

#[test]
fn to_tap_image_errors_on_unsupported_instead_of_truncating() {
    let mut v = tzx_header();
    append_id10(&mut v, &[0xff, 1, 2, 0], 100);
    v.push(0x23);
    v.extend_from_slice(&1i16.to_le_bytes());
    append_id10(&mut v, &[0x00, 0x41, 0x00], 50);
    let err = TzxPlayer::to_tap_image(&v).expect_err("must not silently truncate");
    let msg = err_text(&err);
    assert!(msg.contains("0x23"), "TAP scan must surface unsupported 0x23, got {msg}");
}

#[test]
fn to_tap_image_keeps_id10_across_skip_markers() {
    let mut v = tzx_header();
    let first = [0xffu8, 1, 2, 0];
    let second = [0x00u8, 0x41, 0x00];
    append_id10(&mut v, &first, 100);
    v.push(0x21);
    v.push(3);
    v.extend_from_slice(b"grp");
    v.push(0x30);
    v.push(2);
    v.extend_from_slice(b"hi");
    v.push(0x22);
    v.push(0x5a);
    v.extend_from_slice(&[0; 9]);
    append_id10(&mut v, &second, 50);
    let tap = TzxPlayer::to_tap_image(&v).unwrap();
    assert_eq!(tap.blocks.len(), 2);
    assert_eq!(tap.blocks[0], first);
    assert_eq!(tap.blocks[1], second);
}

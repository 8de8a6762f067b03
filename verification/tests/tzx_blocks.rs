use std::io::Write;

use spec_chum::msg::{fmt_out_of_range, fmt_unsupported_id};
use spec_chum::text::{dec, hex, hex2, signed_dec};
use spec_chum::tzx::TzxPlayer;

fn header() -> Vec<u8> {
    let mut v = Vec::new();
    v.extend_from_slice(b"ZXTape!");
    v.extend_from_slice(&[0x1a, 1, 20]);
    v
}

fn csw_block(v: &mut Vec<u8>, compression: u8, stored: u32, csw: &[u8]) {
    v.push(0x18);
    v.extend_from_slice(&((10 + csw.len()) as u32).to_le_bytes());
    v.extend_from_slice(&0u16.to_le_bytes());
    v.extend_from_slice(&35_000u32.to_le_bytes()[..3]);
    v.push(compression);
    v.extend_from_slice(&stored.to_le_bytes());
    v.extend_from_slice(csw);
}

#[test]
fn csw_rle_counts_become_alternating_pulses() {
    let mut v = header();
    csw_block(&mut v, 1, 3, &[10, 0, 0x10, 0x27, 0, 0, 3]);
    let p = TzxPlayer::parse(&v).unwrap();
    let got: Vec<(u32, bool)> = p.pulses.clone();
    assert_eq!(got, vec![(1000, false), (1_000_000, true), (300, false)]);
}

#[test]
fn csw_zlib_recording_is_inflated() {
    let raw = [10u8, 20, 30];
    let mut enc = flate2::write::ZlibEncoder::new(Vec::new(), flate2::Compression::default());
    enc.write_all(&raw).unwrap();
    let packed = enc.finish().unwrap();
    assert_ne!(packed, raw.to_vec());
    let mut v = header();
    csw_block(&mut v, 2, 3, &packed);
    let p = TzxPlayer::parse(&v).unwrap();
    let durs: Vec<u32> = p.pulses.iter().map(|(d, _)| *d).collect();
    assert_eq!(durs, vec![1000, 2000, 3000]);
}

#[test]
fn csw_bad_zlib_and_count_mismatch_are_errors() {
    let mut v = header();
    csw_block(&mut v, 2, 0, &[1, 2, 3, 4]);
    let err = TzxPlayer::parse(&v).expect_err("not zlib");
    assert!(err.to_string().contains("inflate failed"));
    let mut v = header();
    csw_block(&mut v, 1, 5, &[1, 2, 3]);
    let err = TzxPlayer::parse(&v).expect_err("count mismatch");
    assert_eq!(err.to_string(), "TZX CSW pulse count mismatch (got 3, header 5)");
    let mut v = header();
    csw_block(&mut v, 7, 0, &[1]);
    assert_eq!(TzxPlayer::parse(&v).expect_err("compression").to_string(), "unsupported TZX CSW compression 0x07");
}

#[test]
fn direct_recording_merges_equal_levels() {
    let mut v = header();
    v.push(0x15);
    v.extend_from_slice(&100u16.to_le_bytes());
    v.extend_from_slice(&0u16.to_le_bytes());
    v.push(4);
    v.extend_from_slice(&2u32.to_le_bytes()[..3]);
    v.push(0b1100_0011);
    v.push(0b1011_0000);
    let p = TzxPlayer::parse(&v).unwrap();
    assert_eq!(p.pulses, vec![(200, true), (400, false), (300, true), (100, false), (200, true)]);
}

#[test]
fn generalized_data_pilot_and_data_streams() {
    let mut body = Vec::new();
    body.extend_from_slice(&0u16.to_le_bytes());
    body.extend_from_slice(&1u32.to_le_bytes());
    body.push(1);
    body.push(1);
    body.extend_from_slice(&2u32.to_le_bytes());
    body.push(2);
    body.push(2);
    // Pilot symbol 0: edge, one pulse of 700.
    body.push(0x00);
    body.extend_from_slice(&700u16.to_le_bytes());
    // Pilot stream: symbol 0 three times.
    body.push(0);
    body.extend_from_slice(&3u16.to_le_bytes());
    // Data symbol 0: force high, 100 then a stop.
    body.push(0x03);
    body.extend_from_slice(&100u16.to_le_bytes());
    body.extend_from_slice(&0u16.to_le_bytes());
    // Data symbol 1: edge, 200, 300.
    body.push(0x00);
    body.extend_from_slice(&200u16.to_le_bytes());
    body.extend_from_slice(&300u16.to_le_bytes());
    // Data stream: bits 1, 0.
    body.push(0b1000_0000);
    let mut v = header();
    v.push(0x19);
    v.extend_from_slice(&(body.len() as u32).to_le_bytes());
    v.extend_from_slice(&body);
    let p = TzxPlayer::parse(&v).unwrap();
    assert_eq!(
        p.pulses,
        vec![(700, false), (700, true), (700, false), (200, true), (300, false), (100, true)]
    );
}

#[test]
fn generalized_data_symbol_out_of_range_is_an_error() {
    let mut body = Vec::new();
    body.extend_from_slice(&0u16.to_le_bytes());
    body.extend_from_slice(&1u32.to_le_bytes());
    body.push(1);
    body.push(1);
    body.extend_from_slice(&0u32.to_le_bytes());
    body.push(0);
    body.push(0);
    body.push(0x00);
    body.extend_from_slice(&700u16.to_le_bytes());
    body.push(5);
    body.extend_from_slice(&1u16.to_le_bytes());
    let mut v = header();
    v.push(0x19);
    v.extend_from_slice(&(body.len() as u32).to_le_bytes());
    v.extend_from_slice(&body);
    let err = TzxPlayer::parse(&v).expect_err("symbol 5 of 1");
    assert_eq!(err.to_string(), "TZX GDB pilot symbol 5 out of range (1)");
}

#[test]
fn signal_level_block_sets_the_next_edge() {
    let mut v = header();
    v.push(0x2b);
    v.extend_from_slice(&1u32.to_le_bytes());
    v.push(1);
    v.push(0x12);
    v.extend_from_slice(&500u16.to_le_bytes());
    v.extend_from_slice(&2u16.to_le_bytes());
    let p = TzxPlayer::parse(&v).unwrap();
    assert_eq!(p.pulses, vec![(500, true), (500, false)]);
}

#[test]
fn control_flow_errors() {
    let mut v = header();
    v.push(0x25);
    assert_eq!(TzxPlayer::parse(&v).expect_err("loop end").to_string(), "TZX Loop End (0x25) without matching Loop Start");
    let mut v = header();
    v.push(0x24);
    v.extend_from_slice(&2u16.to_le_bytes());
    assert_eq!(
        TzxPlayer::parse(&v).expect_err("open loop").to_string(),
        "TZX Loop Start (0x24) without matching Loop End"
    );
    let mut v = header();
    v.push(0x27);
    assert_eq!(
        TzxPlayer::parse(&v).expect_err("return").to_string(),
        "TZX Return (0x27) without matching Call sequence"
    );
    let mut v = header();
    v.push(0x23);
    v.extend_from_slice(&(-5i16).to_le_bytes());
    assert_eq!(
        TzxPlayer::parse(&v).expect_err("jump").to_string(),
        "TZX Jump (0x23) target out of range (from 0 + -5, 1 blocks)"
    );
    let mut v = header();
    v.push(0x26);
    v.extend_from_slice(&1u16.to_le_bytes());
    v.extend_from_slice(&1i16.to_le_bytes());
    assert_eq!(
        TzxPlayer::parse(&v).expect_err("call").to_string(),
        "TZX Call sequence (0x26) without matching Return (0x27)"
    );
}

#[test]
fn bad_signature_and_truncation() {
    assert_eq!(TzxPlayer::parse(b"ZXTape?\x1a\x01\x14").expect_err("sig").to_string(), "missing TZX signature");
    let mut v = header();
    v.push(0x10);
    v.extend_from_slice(&[0, 0, 9]);
    assert_eq!(TzxPlayer::parse(&v).expect_err("trunc").to_string(), "truncated 0x10");
    assert!(TzxPlayer::to_tap_image(b"nope").is_err());
    assert!(!TzxPlayer::is_standard_speed_only(&header()));
}

#[test]
fn rewind_restarts_the_schedule() {
    let mut v = header();
    v.push(0x12);
    v.extend_from_slice(&1000u16.to_le_bytes());
    v.extend_from_slice(&3u16.to_le_bytes());
    let mut p = TzxPlayer::parse(&v).unwrap();
    p.advance(2500);
    assert_eq!(p.pulse_index(), 2);
    p.rewind();
    assert_eq!(p.pulse_index(), 0);
    assert!(!p.playing);
    assert!(!p.ear_level());
}

#[test]
fn to_tap_player_keeps_pauses() {
    let mut v = header();
    v.push(0x10);
    v.extend_from_slice(&0u16.to_le_bytes());
    v.extend_from_slice(&2u16.to_le_bytes());
    v.extend_from_slice(&[0xff, 0xff]);
    let p = TzxPlayer::to_tap_player(&v).unwrap();
    assert_eq!(p.image.pause_t, vec![1]);
    assert_eq!(p.block_pause_t, vec![1]);
    assert_eq!(p.pulses.last().unwrap().0, 1);
}

#[test]
fn number_texts() {
    assert_eq!(dec(0), "0");
    assert_eq!(dec(1234567890123), "1234567890123");
    assert_eq!(hex(0x8000), "8000");
    assert_eq!(hex2(0x0a), "0a");
    assert_eq!(signed_dec(-32768), "-32768");
    assert_eq!(signed_dec(i64::MIN), "-9223372036854775808");
    assert_eq!(fmt_unsupported_id(0x40, 10, ""), "unsupported TZX block ID 0x40 at offset 10");
    assert_eq!(fmt_out_of_range("Select (0x28)", 3, -4, 2), "TZX Select (0x28) target out of range (from 3 + -4, 2 blocks)");
}

use spec_chum::tap::{
    evaluate_ld_bytes_trap, flash_load_block, is_ld_bytes_trap_pc, tap_checksum, TapImage, TapPlayer,
    TapeTrapResult, BIT0_T, EXPERIENCE_PAUSE_T, LD_BYTES_EDGE_CALL_OFF, LD_BYTES_TRAP_PC, PAUSE_T,
    PILOT_DATA_PULSES, PILOT_HEADER_PULSES, PILOT_PULSE_T, SYNC1_T, SYNC2_T,
};

#[test]
fn parse_empty() {
    let t = TapImage::parse(&[]).unwrap();
    assert!(t.blocks.is_empty());
}

#[test]
fn parse_one_block() {
    let raw = vec![0x03, 0x00, 0x00, 0x11, 0x22];
    let t = TapImage::parse(&raw).unwrap();
    assert_eq!(t.blocks.len(), 1);
    assert_eq!(t.blocks[0], vec![0x00, 0x11, 0x22]);
}

#[test]
fn parse_truncated_block_is_an_error() {
    let raw = vec![0x05, 0x00, 0x00, 0x11];
    assert!(TapImage::parse(&raw).is_err());
}

#[test]
fn header_pilot_pulse_count_matches_rom() {
    let img = TapImage {
        blocks: vec![vec![0x00, 0x11, 0x22]],
        ..Default::default()
    };
    let p = TapPlayer::new(img);
    let expected = PILOT_HEADER_PULSES as usize + 2 + (3 * 8 * 2) + 1;
    assert_eq!(p.scheduled_pulses(), expected);
}

#[test]
fn data_pilot_pulse_count_matches_rom() {
    let img = TapImage {
        blocks: vec![vec![0xff, 0x00]],
        ..Default::default()
    };
    let p = TapPlayer::new(img);
    let expected = PILOT_DATA_PULSES as usize + 2 + (2 * 8 * 2) + 1;
    assert_eq!(p.scheduled_pulses(), expected);
}

#[test]
fn experience_pause_is_shorter_than_rom() {
    let img = TapImage {
        blocks: vec![vec![0x00, 0x00]],
        ..Default::default()
    };
    let mut p = TapPlayer::new(img);
    let full_pause = *p.pulses.last().expect("pause pulse");
    p.set_experience(true);
    let exp_pause = *p.pulses.last().expect("pause pulse");
    assert_eq!(full_pause.0, PAUSE_T);
    assert_eq!(exp_pause.0, EXPERIENCE_PAUSE_T);
}

#[test]
fn set_experience_mid_block_keeps_pulse_position() {
    let img = TapImage {
        blocks: vec![vec![0x00, 0xaa, 0xaa]],
        ..Default::default()
    };
    let mut p = TapPlayer::new(img);
    p.set_playing(true);
    let _ = p.advance(PILOT_PULSE_T * 10);
    let pulse_i = p.pulse_index();
    let n = p.scheduled_pulses();
    p.set_experience(true);
    assert!(p.experience());
    assert_eq!(p.pulse_index(), pulse_i, "mid-load set_experience must not restart the EAR schedule");
    assert_eq!(p.scheduled_pulses(), n);
    assert_eq!(p.pulses.last().expect("pause").0, EXPERIENCE_PAUSE_T);
}

#[test]
fn ear_toggles_during_pilot() {
    let img = TapImage {
        blocks: vec![vec![0x00, 0x00]],
        ..Default::default()
    };
    let mut p = TapPlayer::new(img);
    let first = p.ear_level();
    assert!(first, "pilot starts high");
    assert!(p.advance(PILOT_PULSE_T / 2));
    assert!(!p.advance(PILOT_PULSE_T));
    assert!(p.advance(PILOT_PULSE_T));
}

#[test]
fn tap_pulses_always_alternate_including_sync() {
    let img = TapImage {
        blocks: vec![vec![0x00, 0x11, 0x22]],
        ..Default::default()
    };
    let p = TapPlayer::new(img);
    let pulses = p.pulses.clone();
    assert!(pulses.len() > PILOT_HEADER_PULSES as usize + 2);
    for w in pulses.windows(2) {
        assert_ne!(w[0].1, w[1].1, "adjacent EAR pulses must toggle");
    }
    let last_pilot = pulses[PILOT_HEADER_PULSES as usize - 1];
    let sync1 = pulses[PILOT_HEADER_PULSES as usize];
    assert_eq!(sync1.0, SYNC1_T);
    assert_ne!(last_pilot.1, sync1.1);
}

#[test]
fn set_speed_does_not_rebuild_or_shorten_schedule() {
    let img = TapImage {
        blocks: vec![vec![0x00, 0x00]],
        ..Default::default()
    };
    let mut p = TapPlayer::new(img);
    let n = p.scheduled_pulses();
    let first = p.pulses[0].0;
    p.set_speed(10);
    assert_eq!(p.speed(), 10);
    assert_eq!(p.scheduled_pulses(), n, "speed must not alter ROM-accurate pulse schedule");
    assert_eq!(p.pulses[0].0, first);
    assert_eq!(first, PILOT_PULSE_T);
}

#[test]
fn set_speed_clamps_to_range() {
    let mut p = TapPlayer::new(TapImage::default());
    p.set_speed(0);
    assert_eq!(p.speed(), 1);
    p.set_speed(1000);
    assert_eq!(p.speed(), 64);
}

#[test]
fn set_speed_mid_block_keeps_pulse_position() {
    let img = TapImage {
        blocks: vec![vec![0x00, 0xaa, 0xaa]],
        ..Default::default()
    };
    let mut p = TapPlayer::new(img);
    p.set_playing(true);
    let _ = p.advance(PILOT_PULSE_T * 10);
    let pulse_i = p.pulse_index();
    let n = p.scheduled_pulses();
    p.set_speed(10);
    assert_eq!(p.speed(), 10);
    assert_eq!(p.pulse_index(), pulse_i, "mid-load set_speed must not restart the EAR schedule");
    assert_eq!(p.scheduled_pulses(), n);
}

#[test]
fn advances_to_next_block_after_pause() {
    let img = TapImage {
        blocks: vec![vec![0x00], vec![0xff, 0x00]],
        ..Default::default()
    };
    let mut p = TapPlayer::new(img);
    assert_eq!(p.block, 0);
    let t = PILOT_HEADER_PULSES * PILOT_PULSE_T + SYNC1_T + SYNC2_T + 16 * BIT0_T + PAUSE_T;
    p.advance(t);
    assert_eq!(p.block, 1);
    assert_eq!(p.scheduled_pulses(), PILOT_DATA_PULSES as usize + 2 + (2 * 8 * 2) + 1);
}

#[test]
fn last_block_end_finishes_and_stops() {
    let img = TapImage {
        blocks: vec![vec![0x00]],
        ..Default::default()
    };
    let mut p = TapPlayer::new(img);
    let t = PILOT_HEADER_PULSES * PILOT_PULSE_T + SYNC1_T + SYNC2_T + 16 * BIT0_T + PAUSE_T;
    p.advance(t);
    assert!(p.finished());
    assert!(!p.playing);
    assert!(p.current_block_bytes().is_none());
}

#[test]
fn rewind_returns_to_first_block_paused() {
    let img = TapImage {
        blocks: vec![vec![0x00], vec![0xff, 0x00]],
        ..Default::default()
    };
    let mut p = TapPlayer::new(img);
    p.consume_block();
    assert_eq!(p.block, 1);
    p.rewind();
    assert_eq!(p.block, 0);
    assert!(!p.playing);
    assert_eq!(p.pulse_index(), 0);
    assert_eq!(p.current_block_bytes(), Some(&[0x00u8][..]));
}

#[test]
fn rewind_to_block_clamps_to_block_count() {
    let img = TapImage {
        blocks: vec![vec![0x00], vec![0xff, 0x00]],
        ..Default::default()
    };
    let mut p = TapPlayer::new(img);
    p.rewind_to_block(7);
    assert_eq!(p.block, 2);
    assert_eq!(p.scheduled_pulses(), 0);
}

#[test]
fn block_pauses_override_the_default_gap() {
    let img = TapImage {
        blocks: vec![vec![0x00]],
        ..Default::default()
    };
    let mut p = TapPlayer::new(img);
    p.set_block_pauses(vec![1234]);
    assert_eq!(p.pulses.last().unwrap().0, 1234);
}

#[test]
fn checksum_is_xor_of_bytes() {
    assert_eq!(tap_checksum(&[]), 0);
    assert_eq!(tap_checksum(&[0xff, 0x11, 0x22, 0x33]), 0xff ^ 0x11 ^ 0x22 ^ 0x33);
}

#[test]
fn flash_load_skips_flag_and_checksum() {
    let block = vec![0xff, 0x11, 0x22, 0x33, 0xff ^ 0x11 ^ 0x22 ^ 0x33];
    let mut mem = [0u8; 8];
    for (addr, v) in flash_load_block(&block, 0) {
        mem[addr as usize] = v;
    }
    assert_eq!(&mem[..3], &[0x11, 0x22, 0x33]);
}

#[test]
fn flash_load_wraps_at_top_of_memory() {
    let block = vec![0xff, 0x11, 0x22, 0x00];
    assert_eq!(flash_load_block(&block, 0xffff), vec![(0xffff, 0x11), (0x0000, 0x22)]);
    assert!(flash_load_block(&[0xff], 0x8000).is_empty());
}

#[test]
fn ld_bytes_trap_consumes_matching_block() {
    let img = TapImage {
        blocks: vec![vec![0xff, 0x42, 0xff ^ 0x42]],
        ..Default::default()
    };
    let mut p = TapPlayer::new(img);
    let r = evaluate_ld_bytes_trap(LD_BYTES_TRAP_PC, 0xff, true, 0x8000, 1, &mut p);
    assert_eq!(r, TapeTrapResult::Success { addr: 0x8000, len: 1 });
    assert_eq!(p.block, 1);
    assert!(p.finished() || p.current_block_bytes().is_none());
}

#[test]
fn ld_bytes_trap_skips_wrong_flag_then_loads() {
    let data = vec![0xff, 0x42, 0xff ^ 0x42];
    let header = {
        let mut h = vec![0x00, 0x11];
        h.push(tap_checksum(&h));
        h
    };
    let img = TapImage {
        blocks: vec![data, header.clone()],
        ..Default::default()
    };
    let mut p = TapPlayer::new(img);
    let r = evaluate_ld_bytes_trap(LD_BYTES_TRAP_PC, 0x00, true, 0x5c00, 1, &mut p);
    assert_eq!(r, TapeTrapResult::Success { addr: 0x5c00, len: 1 });
    assert_eq!(p.block, 2);
}

#[test]
fn ld_bytes_trap_restores_position_when_flag_not_found() {
    let img = TapImage {
        blocks: vec![vec![0xff, 0x42, 0xff ^ 0x42]],
        ..Default::default()
    };
    let mut p = TapPlayer::new(img);
    let r = evaluate_ld_bytes_trap(LD_BYTES_TRAP_PC, 0x00, true, 0x5c00, 1, &mut p);
    assert_eq!(r, TapeTrapResult::Failure);
    assert_eq!(p.block, 0, "should not drain the deck when no flag matches");
}

#[test]
fn ld_bytes_trap_rejects_bad_checksum() {
    let img = TapImage {
        blocks: vec![vec![0xff, 0x42, 0x00]],
        ..Default::default()
    };
    let mut p = TapPlayer::new(img);
    let r = evaluate_ld_bytes_trap(LD_BYTES_TRAP_PC, 0xff, true, 0x8000, 1, &mut p);
    assert_eq!(r, TapeTrapResult::Failure);
}

#[test]
fn ld_bytes_trap_ignored_while_paused() {
    let img = TapImage {
        blocks: vec![vec![0xff, 0x42, 0xff ^ 0x42]],
        ..Default::default()
    };
    let mut p = TapPlayer::new(img);
    p.set_playing(false);
    let r = evaluate_ld_bytes_trap(LD_BYTES_TRAP_PC, 0xff, true, 0x8000, 1, &mut p);
    assert_eq!(r, TapeTrapResult::Ignored);
    assert_eq!(p.block, 0);
    p.set_playing(true);
    let r = evaluate_ld_bytes_trap(LD_BYTES_TRAP_PC, 0xff, true, 0x8000, 1, &mut p);
    assert_eq!(r, TapeTrapResult::Success { addr: 0x8000, len: 1 });
}

#[test]
fn advance_does_not_consume_while_paused() {
    let img = TapImage {
        blocks: vec![vec![0x00, 0x00]],
        ..Default::default()
    };
    let mut p = TapPlayer::new(img);
    p.set_playing(false);
    let level = p.ear_level();
    assert_eq!(p.advance(PILOT_PULSE_T * 10), level);
    assert_eq!(p.block, 0);
    p.set_playing(true);
    assert!(p.advance(PILOT_PULSE_T / 2), "still in first pilot pulse");
    assert!(!p.advance(PILOT_PULSE_T), "cross into second pilot pulse");
}

#[test]
fn ld_bytes_trap_pc_requires_rom_prologue() {
    let mut rom = [0u8; 0x600];
    rom[0x0556] = 0x14;
    rom[0x0557] = 0x08;
    rom[0x0558] = 0x15;
    rom[0x0559] = 0xF3;
    assert!(is_ld_bytes_trap_pc(LD_BYTES_TRAP_PC, &rom));
    rom[0x0556] = 0x20;
    assert!(!is_ld_bytes_trap_pc(LD_BYTES_TRAP_PC, &rom));
}

/// The address space of the relocated-loader scenario: the 0x200-byte RAM
/// clone mapped at 0x8097, zero elsewhere.
fn relocated_memory(mem: &[u8; 0x200]) -> Vec<u8> {
    let mut space = vec![0u8; 0x10000];
    space[0x8097..0x8097 + 0x200].copy_from_slice(mem);
    space
}

#[test]
fn ld_bytes_trap_pc_matches_relocated_boggit_style_loader() {
    let mut mem = [0u8; 0x200];
    mem[0] = 0x14;
    mem[1] = 0x08;
    mem[2] = 0x15;
    mem[3] = 0xF3;
    let call_pc = LD_BYTES_EDGE_CALL_OFF;
    mem[call_pc as usize] = 0xCD;
    let read = relocated_memory(&mem);
    let trap = 0x8097 + LD_BYTES_EDGE_CALL_OFF;
    assert!(is_ld_bytes_trap_pc(trap, &read));
    assert!(!is_ld_bytes_trap_pc(0x8097, &read));
    let mut read_no_call = read.clone();
    read_no_call[trap as usize] = 0x00;
    assert!(!is_ld_bytes_trap_pc(trap, &read_no_call));
    let all_call = vec![0xCDu8; 0x10000];
    assert!(!is_ld_bytes_trap_pc(0x4000 + LD_BYTES_EDGE_CALL_OFF - 1, &all_call));
}

#[test]
fn evaluate_ld_bytes_trap_accepts_relocated_pc() {
    let img = TapImage {
        blocks: vec![vec![0xff, 0x42, 0x42 ^ 0xff]],
        ..Default::default()
    };
    let mut p = TapPlayer::new(img);
    p.set_playing(true);
    let r = evaluate_ld_bytes_trap(0x80AD, 0xff, true, 0x9000, 1, &mut p);
    assert!(matches!(r, TapeTrapResult::Success { .. }));
    assert_eq!(p.block, 1);
}

use spec_chum::debugger::{Debugger, HitIds};
use spec_chum::joystick::{apply_joystick, JoystickMode, JoystickState, KempstonLatch, KeyMatrix};
use spec_chum::machine::{Model, TapeDeck, TapeLoadOptions};
use spec_chum::rom_resolve::{FileProbe, FsView};
use spec_chum::rom_slots::{resolve_rom_path_in, rom_available_in};
use spec_chum::tap::{tap_checksum, TapImage, TapPlayer, PILOT_HEADER_PULSES, PILOT_PULSE_T, SYNC1_T, SYNC2_T};
use spec_chum::tzx::TzxPlayer;

fn tap_player() -> TapPlayer {
    TapPlayer::new(TapImage { blocks: vec![vec![0x00, 0x11, 0x22], vec![0xff, 0x33]], pause_t: vec![5000, 5000] })
}

fn position(p: &TapPlayer) -> (usize, usize, u32, bool) {
    (p.block, p.pulse_i, p.remain, p.level)
}

#[test]
fn tap_advance_in_steps_matches_one_step() {
    for (a, b) in [(1u32, 1u32), (2168, 2168), (5_000, 100_000), (17_000_000, 3), (0, 9_999)] {
        let mut split = tap_player();
        split.advance(a);
        split.advance(b);
        let mut whole = tap_player();
        whole.advance(a + b);
        assert_eq!(position(&split), position(&whole), "a={a} b={b}");
        assert_eq!(split.playing, whole.playing);
    }
}

#[test]
fn tzx_advance_in_steps_matches_one_step() {
    let mut data = b"ZXTape!\x1a\x01\x14".to_vec();
    for count in [4u16, 6] {
        data.push(0x12);
        data.extend_from_slice(&1000u16.to_le_bytes());
        data.extend_from_slice(&count.to_le_bytes());
    }
    for (a, b) in [(1u32, 1u32), (1000, 1000), (2500, 4000), (9_999, 1), (6_000, 50_000)] {
        let mut split = TzxPlayer::parse(&data).ok().expect("tzx");
        split.advance(a);
        split.advance(b);
        let mut whole = TzxPlayer::parse(&data).ok().expect("tzx");
        whole.advance(a + b);
        assert_eq!(
            (split.pulse_i, split.remain, split.level, split.block, split.playing),
            (whole.pulse_i, whole.remain, whole.level, whole.block, whole.playing),
            "a={a} b={b}"
        );
    }
}

#[test]
fn tap_block_plays_rom_shape() {
    let p = tap_player();
    let s = &p.pulses;
    assert_eq!(s.len(), PILOT_HEADER_PULSES as usize + 2 + 3 * 16 + 1);
    assert!(s[..PILOT_HEADER_PULSES as usize].iter().all(|x| x.0 == PILOT_PULSE_T));
    assert_eq!(s[PILOT_HEADER_PULSES as usize].0, SYNC1_T);
    assert_eq!(s[PILOT_HEADER_PULSES as usize + 1].0, SYNC2_T);
    assert_eq!(s[s.len() - 1].0, 5000);
    assert!(s[0].1);
    assert!(s.windows(2).all(|w| w[0].1 != w[1].1));
}

#[test]
fn checksum_closes_a_block() {
    let mut block = vec![0xff, 0x12, 0x34, 0x56];
    let c = tap_checksum(&block);
    block.push(c);
    assert_eq!(tap_checksum(&block), 0);
}

#[test]
fn continue_runs_past_a_breakpoint_once() {
    let mut ids = HitIds::new();
    let mut d = Debugger::new();
    d.add_pc_break(0x8000);
    d.continue_from_pc(0x8000);
    assert!(!d.check_pc(0x8000, &mut ids));
    assert!(d.check_pc(0x8000, &mut ids));
}

#[test]
fn stop_ids_increase() {
    let mut ids = HitIds::new();
    let mut d = Debugger::new();
    d.add_pc_break(0x10);
    assert!(d.check_pc(0x10, &mut ids));
    let first = d.latest_pc_hit_id();
    d.continue_from_pc(0x10);
    assert!(!d.check_pc(0x10, &mut ids));
    assert!(d.check_pc(0x10, &mut ids));
    assert!(d.latest_pc_hit_id() > first);
}

#[test]
fn keyboard_joystick_state_replaces_previous_one() {
    let mut k = KempstonLatch::new();
    let mut after = KeyMatrix::new();
    apply_joystick(JoystickMode::Cursor, JoystickState { left: true, fire: true, ..JoystickState::empty() }, &mut k, &mut after);
    let s2 = JoystickState { up: true, ..JoystickState::empty() };
    apply_joystick(JoystickMode::SinclairRight, s2, &mut k, &mut after);
    let mut alone = KeyMatrix::new();
    apply_joystick(JoystickMode::SinclairRight, s2, &mut k, &mut alone);
    assert_eq!(after.rows, alone.rows);
}

#[test]
fn normalizing_options_settles() {
    for o in [
        TapeLoadOptions { flash_load: true, speed: 0, experience_load: true },
        TapeLoadOptions { flash_load: true, speed: 500, experience_load: false },
        TapeLoadOptions { flash_load: false, speed: 7, experience_load: false },
    ] {
        let n = o.normalized();
        assert_eq!(n.normalized(), n);
        assert!(1 <= n.speed && n.speed <= 64);
    }
    let w = TapeLoadOptions::default().with_speed(99);
    assert_eq!(w.normalized(), w);
    assert_eq!(TapeLoadOptions::experience().normalized(), TapeLoadOptions::experience());
}

#[test]
fn progress_stays_within_the_block() {
    let mut deck = TapeDeck::Tap(tap_player());
    for dt in [0u32, 1, 2168, 1_000_000, 30_000_000] {
        deck.advance(dt);
        assert!(deck.pulse_index() <= deck.pulse_count());
    }
}

#[test]
fn availability_matches_resolution() {
    let roots = vec!["/w".to_string()];
    let rom = |len: usize| FsView {
        probes: vec![FileProbe {
            path: "/w/roms/plus2/plus2uk.rom".to_string(),
            is_file: true,
            len: Some(len as u64),
            data: Ok(vec![0; len]),
        }],
    };
    let good = rom(32 * 1024);
    assert!(resolve_rom_path_in(Model::SpectrumPlus2, &roots, &good).is_some());
    assert!(rom_available_in(Model::SpectrumPlus2, &roots, &good));
    let short = rom(100);
    assert!(resolve_rom_path_in(Model::SpectrumPlus2, &roots, &short).is_some());
    assert!(!rom_available_in(Model::SpectrumPlus2, &roots, &short));
    let none = FsView { probes: vec![] };
    assert!(!rom_available_in(Model::SpectrumPlus2, &roots, &none));
}

use spec_chum::joystick::{
    apply_joystick, clear_joystick_matrix, JoystickMode, JoystickState, KempstonLatch, KeyMatrix,
};

#[test]
fn kempston_mask_roundtrip() {
    let s = JoystickState {
        up: true,
        fire: true,
        ..JoystickState::empty()
    };
    assert_eq!(s.to_mask(), 0x18);
    assert_eq!(JoystickState::from_mask(0x18), s);
}

#[test]
fn every_mask_roundtrips_through_its_low_five_bits() {
    for m in 0..=255u8 {
        assert_eq!(JoystickState::from_mask(m).to_mask(), m & 0x1f);
    }
}

#[test]
fn mode_from_u8() {
    assert_eq!(JoystickMode::from_u8(0), Some(JoystickMode::Kempston));
    assert_eq!(JoystickMode::from_u8(1), Some(JoystickMode::SinclairLeft));
    assert_eq!(JoystickMode::from_u8(2), Some(JoystickMode::SinclairRight));
    assert_eq!(JoystickMode::from_u8(3), Some(JoystickMode::Cursor));
    assert_eq!(JoystickMode::from_u8(4), None);
}

#[test]
fn kempston_mode_sets_port_bits() {
    let mut k = KempstonLatch::new();
    let mut kb = KeyMatrix::new();
    apply_joystick(
        JoystickMode::Kempston,
        JoystickState {
            left: true,
            fire: true,
            ..JoystickState::empty()
        },
        &mut k,
        &mut kb,
    );
    assert_eq!(k.read(), 0x12);
    assert_eq!(kb.rows, [0x1f; 8]);
}

#[test]
fn sinclair_left_presses_12345_row() {
    let mut k = KempstonLatch::new();
    let mut kb = KeyMatrix::new();
    apply_joystick(
        JoystickMode::SinclairLeft,
        JoystickState {
            left: true,
            right: true,
            down: true,
            up: true,
            fire: true,
        },
        &mut k,
        &mut kb,
    );
    assert_eq!(k.read(), 0);
    assert_eq!(kb.rows[3] & 0x1f, 0);
}

#[test]
fn sinclair_right_presses_67890_row() {
    let mut k = KempstonLatch::new();
    let mut kb = KeyMatrix::new();
    apply_joystick(
        JoystickMode::SinclairRight,
        JoystickState {
            left: true,
            fire: true,
            ..JoystickState::empty()
        },
        &mut k,
        &mut kb,
    );
    assert_eq!(kb.rows[4] & (1 << 4), 0);
    assert_eq!(kb.rows[4] & (1 << 0), 0);
    assert_ne!(kb.rows[4] & (1 << 3), 0);
}

#[test]
fn cursor_uses_caps_and_5678() {
    let mut k = KempstonLatch::new();
    let mut kb = KeyMatrix::new();
    apply_joystick(
        JoystickMode::Cursor,
        JoystickState {
            up: true,
            ..JoystickState::empty()
        },
        &mut k,
        &mut kb,
    );
    assert_eq!(kb.rows[0] & 1, 0);
    assert_eq!(kb.rows[4] & (1 << 3), 0);
}

#[test]
fn release_clears_previous_matrix() {
    let mut k = KempstonLatch::new();
    let mut kb = KeyMatrix::new();
    apply_joystick(
        JoystickMode::SinclairLeft,
        JoystickState {
            fire: true,
            ..JoystickState::empty()
        },
        &mut k,
        &mut kb,
    );
    apply_joystick(JoystickMode::SinclairLeft, JoystickState::empty(), &mut k, &mut kb);
    assert_eq!(kb.rows[3], 0x1f);
}

#[test]
fn clearing_releases_only_joystick_keys() {
    let mut kb = KeyMatrix::new();
    kb.set_key(0, 0, true);
    kb.set_key(0, 1, true);
    kb.set_key(3, 2, true);
    kb.set_key(4, 4, true);
    kb.set_key(7, 0, true);
    clear_joystick_matrix(&mut kb);
    assert_eq!(kb.rows[0], 0x1d);
    assert_eq!(kb.rows[3], 0x1f);
    assert_eq!(kb.rows[4], 0x1f);
    assert_eq!(kb.rows[7], 0x1e);
}

#[test]
fn kempston_mode_keeps_host_keys_and_other_modes_release_the_port() {
    let mut k = KempstonLatch::new();
    let mut kb = KeyMatrix::new();
    kb.set_key(0, 0, true);
    apply_joystick(JoystickMode::Kempston, JoystickState { right: true, ..JoystickState::empty() }, &mut k, &mut kb);
    assert_eq!(k.read(), 0x01);
    assert_eq!(kb.rows[0], 0x1e);
    apply_joystick(JoystickMode::Cursor, JoystickState::empty(), &mut k, &mut kb);
    assert_eq!(k.read(), 0);
    assert_eq!(kb.rows[0], 0x1f);
}

use spec_chum::machine::MachineBuildError;
use spec_chum::tap::{TapImage, TapeError};
use spec_chum::z80test::{code_block, Z80testError, CODE_ENTRY};

#[test]
fn z80test_error_display_preserves_harness_strings() {
    assert_eq!(Z80testError::NoCodeBlock.to_string(), "no CODE block found in TAP");
    assert_eq!(
        Z80testError::WrongCodeAddress { expected: CODE_ENTRY, got: 0x9000 }.to_string(),
        "expected CODE at 0x8000, got 0x9000"
    );
    assert_eq!(
        Z80testError::CodeLengthMismatch { header_len: 10, block_len: 5 }.to_string(),
        "CODE data length mismatch: header 10, block 5"
    );
}

#[test]
fn code_block_rejects_empty_tap() {
    let image = TapImage { blocks: Vec::new(), pause_t: Vec::new() };
    assert!(matches!(code_block(&image), Err(Z80testError::NoCodeBlock)));
}

fn code_header(len: u16, addr: u16) -> Vec<u8> {
    let mut h = vec![0x00, 0x03];
    h.extend_from_slice(b"z80test   ");
    h.extend_from_slice(&len.to_le_bytes());
    h.extend_from_slice(&addr.to_le_bytes());
    h.extend_from_slice(&[0, 0]);
    h.push(0);
    h
}

#[test]
fn code_block_finds_address_and_data() {
    let image = TapImage {
        blocks: vec![vec![0xff, 1, 2], code_header(3, 0x8000), vec![0xff, 9, 8, 7, 0]],
        pause_t: Vec::new(),
    };
    let (addr, data) = match code_block(&image) {
        Ok(x) => x,
        Err(e) => panic!("{}", e.to_string()),
    };
    assert_eq!(addr, 0x8000);
    assert_eq!(data, &[0xff, 9, 8, 7, 0]);
}

#[test]
fn code_block_length_mismatch() {
    let image = TapImage { blocks: vec![code_header(10, 0x8000), vec![0xff, 1, 2, 3, 0]], pause_t: Vec::new() };
    assert!(matches!(code_block(&image), Err(Z80testError::CodeLengthMismatch { header_len: 10, block_len: 5 })));
}

#[test]
fn harness_error_texts() {
    assert_eq!(
        Z80testError::Machine(MachineBuildError::InvalidRom("too short".to_string())).to_string(),
        "invalid ROM: too short"
    );
    assert_eq!(
        Z80testError::TapLoad { path: "x.tap".to_string(), source: TapeError::Format("bad".to_string()) }.to_string(),
        "TAP x.tap: bad"
    );
    assert_eq!(
        Z80testError::MissingRom { path: "roms/spec48.rom".to_string(), source: "gone".to_string() }.to_string(),
        "missing 48K ROM (roms/spec48.rom): run ./scripts/fetch_roms.sh (gone)"
    );
}

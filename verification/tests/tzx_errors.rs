use spec_chum::machine::Model;
use spec_chum::rom_catalog::{model_label, model_title, ALL_MODELS};
use spec_chum::tzx::TzxPlayer;
use spec_chum::tzx_expand::Expander;

fn tzx_head() -> Vec<u8> {
    let mut v = Vec::new();
    v.extend_from_slice(b"ZXTape!");
    v.extend_from_slice(&[0x1a, 1, 20]);
    v
}

fn parse_err(v: &[u8]) -> String {
    TzxPlayer::parse(v).expect_err("image must be rejected").to_string()
}

#[test]
fn parse_without_signature_names_it() {
    assert_eq!(parse_err(b"ZXTape?\x1a\x01\x14"), "missing TZX signature");
    assert_eq!(parse_err(b"short"), "missing TZX signature");
}

#[test]
fn index_reports_a_short_fixed_header() {
    let mut v = tzx_head();
    v.extend_from_slice(&[0x10, 0x00]);
    assert_eq!(parse_err(&v), "truncated 0x10");
}

#[test]
fn index_reports_a_body_past_the_end() {
    let mut v = tzx_head();
    v.extend_from_slice(&[0x10, 0, 0, 5, 0, 1]);
    assert_eq!(parse_err(&v), "truncated TZX block ID 0x10");
}

#[test]
fn index_names_an_unknown_id_and_its_offset() {
    let mut v = tzx_head();
    v.extend_from_slice(&[0x12, 1, 0, 1, 0]);
    v.push(0x16);
    v.extend_from_slice(&[0u8; 16]);
    assert_eq!(parse_err(&v), "unsupported TZX block ID 0x16 at offset 15");
}

#[test]
fn jump_to_itself_names_the_infinite_loop() {
    let mut v = tzx_head();
    v.extend_from_slice(&[0x23, 0, 0]);
    assert_eq!(parse_err(&v), "TZX Jump (0x23) relative 0 is an infinite loop");
}

#[test]
fn jump_past_the_end_names_the_range() {
    let mut v = tzx_head();
    v.extend_from_slice(&[0x23, 5, 0]);
    assert_eq!(parse_err(&v), "TZX Jump (0x23) target out of range (from 0 + 5, 1 blocks)");
    let mut w = tzx_head();
    w.extend_from_slice(&[0x12, 1, 0, 1, 0]);
    w.extend_from_slice(&[0x23, 0xfe, 0xff]);
    assert_eq!(parse_err(&w), "TZX Jump (0x23) target out of range (from 1 + -2, 2 blocks)");
}

#[test]
fn loop_budget_error_names_the_pulse_cap() {
    let mut v = tzx_head();
    v.extend_from_slice(&[0x24, 0xff, 0xff, 0x12, 1, 0, 0x00, 0x10, 0x25]);
    assert_eq!(parse_err(&v), "TZX pulse schedule exceeded 16777216 pulses (loop expansion?)");
}

#[test]
fn unbalanced_loops_and_calls_are_named() {
    let mut v = tzx_head();
    v.extend_from_slice(&[0x24, 2, 0]);
    assert_eq!(parse_err(&v), "TZX Loop Start (0x24) without matching Loop End");
    let mut w = tzx_head();
    w.push(0x25);
    assert_eq!(parse_err(&w), "TZX Loop End (0x25) without matching Loop Start");
    let mut x = tzx_head();
    x.push(0x27);
    assert_eq!(parse_err(&x), "TZX Return (0x27) without matching Call sequence");
}

#[test]
fn truncated_block_bodies_are_named() {
    let mut v = tzx_head();
    v.extend_from_slice(&[0x28, 0x00]);
    assert_eq!(parse_err(&v), "truncated 0x28");
    let mut w = tzx_head();
    w.extend_from_slice(&[0x2b, 1, 0, 0]);
    assert_eq!(parse_err(&w), "truncated TZX block ID 0x2b");
}

#[test]
fn to_tap_image_names_the_control_flow_block() {
    let mut v = tzx_head();
    v.extend_from_slice(&[0x10, 100, 0, 4, 0, 0xff, 1, 2, 0]);
    v.extend_from_slice(&[0x23, 1, 0]);
    v.extend_from_slice(&[0x10, 50, 0, 3, 0, 0x00, 0x41, 0x00]);
    let msg = TzxPlayer::to_tap_image(&v).expect_err("control flow is refused").to_string();
    assert_eq!(msg, "unsupported TZX block ID 0x23 at offset 19 (control flow \u{2014} use EAR)");
}

#[test]
fn to_tap_image_names_direct_and_pulse_recordings() {
    let mut v = tzx_head();
    v.extend_from_slice(&[0x15, 79, 0, 0, 0, 8, 1, 0, 0, 0xaa]);
    let msg = TzxPlayer::to_tap_image(&v).expect_err("direct recording is refused").to_string();
    assert_eq!(msg, "unsupported TZX block ID 0x15 at offset 10 (direct recording \u{2014} use EAR)");
    let mut w = tzx_head();
    w.extend_from_slice(&[0x19, 0, 0, 0, 0]);
    let msg = TzxPlayer::to_tap_image(&w).expect_err("generalized data is refused").to_string();
    assert_eq!(msg, "unsupported TZX block ID 0x19 at offset 10 (pulse recording \u{2014} use EAR)");
    assert_eq!(TzxPlayer::to_tap_image(b"nope").expect_err("no signature").to_string(), "missing TZX signature");
}

#[test]
fn every_title_names_its_label_and_titles_differ() {
    for (k, m) in ALL_MODELS.iter().enumerate() {
        assert!(model_title(*m).contains(model_label(*m)), "{} / {}", model_title(*m), model_label(*m));
        for n in ALL_MODELS.iter().skip(k + 1) {
            assert_ne!(model_title(*m), model_title(*n));
        }
    }
    assert_eq!(model_title(Model::Spectrum48), "Spectrum 48K");
    assert!(model_title(Model::SpectrumPlus3e).contains("+3e"));
}

fn csw_block(rate: u32, comp: u8, stored: u32, data: &[u8]) -> Vec<u8> {
    let mut body = vec![0u8, 0];
    body.extend_from_slice(&rate.to_le_bytes()[..3]);
    body.push(comp);
    body.extend_from_slice(&stored.to_le_bytes());
    body.extend_from_slice(data);
    let mut v = tzx_head();
    v.push(0x18);
    v.extend_from_slice(&(body.len() as u32).to_le_bytes());
    v.extend_from_slice(&body);
    v
}

#[test]
fn csw_rejections_are_named() {
    assert_eq!(parse_err(&csw_block(0, 1, 0, &[])), "TZX CSW sample rate is 0");
    assert_eq!(parse_err(&csw_block(4_000_000, 1, 0, &[])), "TZX CSW sample rate too high");
    assert_eq!(parse_err(&csw_block(44_100, 3, 0, &[])), "unsupported TZX CSW compression 0x03");
    assert_eq!(parse_err(&csw_block(44_100, 1, 0, &[0x00, 1])), "truncated CSW RLE dword");
    assert_eq!(parse_err(&csw_block(44_100, 1, 3, &[5, 6])), "TZX CSW pulse count mismatch (got 2, header 3)");
    let bad = parse_err(&csw_block(44_100, 2, 0, &[0xff, 0xff, 0xff, 0xff]));
    assert!(bad.starts_with("TZX CSW Z-RLE inflate failed: "), "got {bad}");
}

fn gdb_block(body: &[u8]) -> Vec<u8> {
    let mut v = tzx_head();
    v.push(0x19);
    v.extend_from_slice(&(body.len() as u32).to_le_bytes());
    v.extend_from_slice(body);
    v
}

#[test]
fn generalized_data_rejections_are_named() {
    // No pilot; two data symbols from a one-symbol alphabet.
    let mut a = vec![0u8, 0, 0, 0, 0, 0, 0, 0, 2, 0, 0, 0, 1, 1];
    a.extend_from_slice(&[0, 10, 0, 0xff]);
    assert_eq!(parse_err(&gdb_block(&a)), "TZX GDB data stream with ASD<=1 and TOTD>1 is invalid");
    // One pilot entry naming symbol 5 of a one-symbol table.
    let mut b = vec![0u8, 0, 1, 0, 0, 0, 1, 1, 0, 0, 0, 0, 0, 0];
    b.extend_from_slice(&[0, 10, 0, 5, 1, 0]);
    assert_eq!(parse_err(&gdb_block(&b)), "TZX GDB pilot symbol 5 out of range (1)");
    // A pilot table that runs past the body.
    let c = vec![0u8, 0, 1, 0, 0, 0, 1, 1, 0, 0, 0, 0, 0, 0];
    assert_eq!(parse_err(&gdb_block(&c)), "truncated TZX GDB SYMDEF");
}

#[test]
fn csw_samples_emit_alternating_pulses_from_raw_rle() {
    let mut x = Expander::new();
    x.csw_samples(&[3, 0, 5, 0, 0, 0], 100, 2, 0).expect("raw RLE decodes");
    assert_eq!(x.pulses, vec![(300, false), (500, true)]);
    let mut y = Expander::new();
    assert_eq!(y.csw_samples(&[0, 1], 100, 0, 0).expect_err("cut dword"), "truncated CSW RLE dword");
    assert_eq!(
        y.csw_samples(&[1, 2, 3], 100, 2, 0).expect_err("count differs"),
        "TZX CSW pulse count mismatch (got 3, header 2)"
    );
}

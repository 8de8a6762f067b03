use spec_chum::machine::Model;
use spec_chum::rom_catalog::{
    expected_main_rom_bytes, model_label, model_title, requires_exrom, requires_trdos_rom, requires_user_rom,
    rom_candidates, rom_slot_descriptors, trdos_rom_08d2_is_vg93_port_stub, trdos_rom_candidates,
    trdos_rom_fills_0800_hole, trdos_rom_has_native_file_services, RomSlotStatus, ALL_MODELS, TIMEX_EXROM_SIZE,
    TRDOS_ROM_INSTALL_PATH, TRDOS_ROM_SIZE,
};
use spec_chum::rom_read::{find_rom_slot, install_slot_check, read_rom, read_trdos_rom, unavailable_reason, RomReadError};
use spec_chum::rom_resolve::{join_path, resolve_first_in, resolve_trdos_rom_preferring_file_services, FileProbe, FsView};
use spec_chum::rom_slots::{
    main_rom_available_in, resolve_rom_path_in_with_overrides, rom_available_in, rom_available_in_with_overrides,
    rom_slot_state, rom_slot_states,
};

fn no_files() -> FsView {
    FsView { probes: Vec::new() }
}

fn file(path: &str, data: Vec<u8>) -> FileProbe {
    FileProbe { path: path.to_string(), is_file: true, len: Some(data.len() as u64), data: Ok(data) }
}

#[test]
fn tests_all_models_ui_order() {
    assert_eq!(
        ALL_MODELS,
        [
            Model::Spectrum16K,
            Model::Spectrum48,
            Model::Spectrum128,
            Model::SpectrumPlus2,
            Model::SpectrumPlus2A,
            Model::SpectrumPlus3,
            Model::SpectrumPlus3e,
            Model::Pentagon128,
            Model::TimexTC2048,
            Model::TimexTS2068,
        ]
    );
}

#[test]
fn plus3e_uses_fetched_concatenated_rom() {
    assert!(!requires_user_rom(Model::SpectrumPlus3e));
    assert_eq!(rom_candidates(Model::SpectrumPlus3e), &["roms/plus3e/plus3e.rom"]);
    assert_eq!(expected_main_rom_bytes(Model::SpectrumPlus3e), 64 * 1024);
    assert_eq!(model_label(Model::SpectrumPlus3e), "+3e");
    assert!(model_title(Model::SpectrumPlus3e).contains("+3e"));
}

#[test]
fn tests_phase_a_models_use_fetchable_paths() {
    assert!(!requires_user_rom(Model::Spectrum16K));
    assert!(!requires_user_rom(Model::SpectrumPlus2));
    assert_eq!(rom_candidates(Model::Spectrum16K), &["roms/spec48.rom"]);
    assert_eq!(rom_candidates(Model::SpectrumPlus2), &["roms/plus2/plus2uk.rom"]);
}

#[test]
fn rom_phase_a_models_use_fetchable_paths() {
    assert!(!requires_user_rom(Model::Spectrum16K));
    assert!(!requires_user_rom(Model::SpectrumPlus2));
    assert_eq!(rom_candidates(Model::Spectrum16K), &["roms/spec48.rom"]);
    assert_eq!(rom_candidates(Model::SpectrumPlus2), &["roms/plus2/plus2uk.rom"]);
}

#[test]
fn tests_pentagon_requires_user_main_and_trdos() {
    assert!(requires_user_rom(Model::Pentagon128));
    assert!(requires_trdos_rom(Model::Pentagon128));
    assert!(!rom_available_in(Model::Pentagon128, &["/nonexistent".to_string()], &no_files()));
}

#[test]
fn rom_pentagon_requires_user_main_and_trdos() {
    assert!(requires_user_rom(Model::Pentagon128));
    assert!(requires_trdos_rom(Model::Pentagon128));
    assert!(!rom_available_in(Model::Pentagon128, &["/nonexistent".to_string()], &no_files()));
}

#[test]
fn tests_timex_tc2048_uses_fetchable_rom_path() {
    assert!(!requires_user_rom(Model::TimexTC2048));
    assert_eq!(rom_candidates(Model::TimexTC2048), &["roms/timex/tc2048.rom"]);
}

#[test]
fn rom_timex_tc2048_uses_fetchable_rom_path() {
    assert!(!requires_user_rom(Model::TimexTC2048));
    assert_eq!(rom_candidates(Model::TimexTC2048), &["roms/timex/tc2048.rom"]);
}

#[test]
fn tests_timex_ts2068_requires_home_and_exrom_slots() {
    assert!(!requires_user_rom(Model::TimexTS2068));
    assert!(requires_exrom(Model::TimexTS2068));
    assert_eq!(rom_candidates(Model::TimexTS2068), &["roms/timex/tc2068-0.rom"]);
    let slots = rom_slot_descriptors(Model::TimexTS2068);
    assert_eq!(slots.len(), 2);
    assert_eq!(slots[0].id, "main");
    assert_eq!(slots[1].id, "exrom");
    assert_eq!(slots[1].expected_bytes, TIMEX_EXROM_SIZE);
}

#[test]
fn rom_timex_ts2068_requires_home_and_exrom_slots() {
    assert!(!requires_user_rom(Model::TimexTS2068));
    assert!(requires_exrom(Model::TimexTS2068));
    assert_eq!(rom_candidates(Model::TimexTS2068), &["roms/timex/tc2068-0.rom"]);
    let slots = rom_slot_descriptors(Model::TimexTS2068);
    assert_eq!(slots.len(), 2);
    assert_eq!(slots[0].id, "main");
    assert_eq!(slots[1].id, "exrom");
    assert_eq!(slots[1].expected_bytes, TIMEX_EXROM_SIZE);
}

#[test]
fn tests_pentagon_has_two_rom_slots() {
    let slots = rom_slot_descriptors(Model::Pentagon128);
    assert_eq!(slots.len(), 2);
    assert_eq!(slots[0].id, "main");
    assert_eq!(slots[1].id, "trdos");
    assert_eq!(slots[1].expected_bytes, TRDOS_ROM_SIZE);
    assert_eq!(slots[1].install_path, TRDOS_ROM_INSTALL_PATH);
    assert!(slots[1].search_paths.contains(&"roms/pentagon/trdos-5.04t.rom"));
}

#[test]
fn rom_pentagon_has_two_rom_slots() {
    let slots = rom_slot_descriptors(Model::Pentagon128);
    assert_eq!(slots.len(), 2);
    assert_eq!(slots[0].id, "main");
    assert_eq!(slots[1].id, "trdos");
    assert_eq!(slots[1].expected_bytes, TRDOS_ROM_SIZE);
    assert_eq!(slots[1].install_path, TRDOS_ROM_INSTALL_PATH);
    assert!(slots[1].search_paths.contains(&"roms/pentagon/trdos-5.04t.rom"));
}

fn ff_hole_checks() {
    let blank = vec![0u8; TRDOS_ROM_SIZE];
    assert!(!trdos_rom_fills_0800_hole(&blank), "all-zero 16KiB must not count as a filled hole");
    assert!(!trdos_rom_has_native_file_services(&blank));
    let mut hole = vec![0u8; TRDOS_ROM_SIZE];
    hole[0x08d2] = 0xff;
    hole[0x0d6b] = 0xff;
    assert!(!trdos_rom_has_native_file_services(&hole));
    assert!(!trdos_rom_fills_0800_hole(&hole));
    hole[0x08d2] = 0xe7;
    hole[0x0d6b] = 0xc9;
    assert!(trdos_rom_fills_0800_hole(&hole));
    assert!(trdos_rom_has_native_file_services(&hole));
    hole[0x08d2..0x08d7].copy_from_slice(&[0x3e, 0x2c, 0xc3, 0x97, 0x08]);
    assert!(trdos_rom_08d2_is_vg93_port_stub(&hole));
    assert!(trdos_rom_fills_0800_hole(&hole));
    assert!(!trdos_rom_has_native_file_services(&hole));
    assert!(!trdos_rom_has_native_file_services(&[0u8; 8]));
}

#[test]
fn tests_trdos_native_file_services_rejects_ff_hole() {
    ff_hole_checks();
}

#[test]
fn rom_trdos_native_file_services_rejects_ff_hole() {
    ff_hole_checks();
}

#[test]
fn read_trdos_not_applicable_is_typed() {
    let err = read_trdos_rom(Model::Spectrum48, &[], &no_files()).expect_err("48K has no TR-DOS");
    assert!(matches!(err, RomReadError::TrdosNotApplicable { .. }));
    assert!(err.to_string().contains("does not use a TR-DOS ROM"));
}

#[test]
fn resolve_trdos_prefers_complete_over_hole() {
    let dir = "/tmp/spec_chum_trdos_pref".to_string();
    let mut hole = vec![0u8; TRDOS_ROM_SIZE];
    hole[0x08d2] = 0xff;
    hole[0x0d6b] = 0xff;
    let mut complete = vec![0x00; TRDOS_ROM_SIZE];
    complete[0x08d2] = 0xe7;
    complete[0x0d6b] = 0xc9;
    let fs = FsView {
        probes: vec![
            file("/tmp/spec_chum_trdos_pref/roms/pentagon/trdos.rom", hole),
            file("/tmp/spec_chum_trdos_pref/roms/pentagon/trdos-5.04t.rom", complete),
        ],
    };
    let got = resolve_trdos_rom_preferring_file_services(
        std::slice::from_ref(&dir),
        trdos_rom_candidates(Model::Pentagon128),
        &fs,
    )
    .expect("resolve");
    assert_eq!(got, "/tmp/spec_chum_trdos_pref/roms/pentagon/trdos-5.04t.rom");
}

#[test]
fn resolve_trdos_falls_back_to_first_readable_image() {
    let mut hole = vec![0u8; TRDOS_ROM_SIZE];
    hole[0x08d2] = 0xff;
    let fs = FsView {
        probes: vec![
            file("r/roms/trdos.rom", hole.clone()),
            file("r/roms/trdos/trdos.rom", hole),
            file("r/roms/pentagon/trdos-complete.rom", vec![0u8; 8]),
        ],
    };
    let got = resolve_trdos_rom_preferring_file_services(&["r".to_string()], trdos_rom_candidates(Model::Pentagon128), &fs);
    assert_eq!(got.as_deref(), Some("r/roms/trdos/trdos.rom"));
}

#[test]
fn override_path_used_when_workspace_empty() {
    let src = "/tmp/spec_chum_rom_ov/away.rom";
    let fs = FsView { probes: vec![file(src, vec![0xCC; 16 * 1024])] };
    let overrides = vec![("main".to_string(), src.to_string())];
    assert!(rom_available_in_with_overrides(Model::Spectrum48, &["/tmp/spec_chum_rom_ov".to_string()], &overrides, &fs));
    assert_eq!(
        resolve_rom_path_in_with_overrides(Model::Spectrum48, &["/tmp/spec_chum_rom_ov".to_string()], &overrides, &fs)
            .as_deref(),
        Some(src)
    );
    assert!(!rom_available_in(Model::Spectrum48, &["/tmp/spec_chum_rom_ov".to_string()], &fs));
}

#[test]
fn roots_are_searched_in_order() {
    let fs = FsView {
        probes: vec![file("b/roms/spec48.rom", vec![0; 16384]), file("c/roms/spec48.rom", vec![0; 16384])],
    };
    let roots = vec!["a".to_string(), "b/".to_string(), "c".to_string()];
    assert_eq!(resolve_first_in(&roots, rom_candidates(Model::Spectrum48), &fs).as_deref(), Some("b/roms/spec48.rom"));
    assert!(main_rom_available_in(Model::Spectrum48, &roots, &fs));
    assert!(rom_available_in(Model::Spectrum48, &roots, &fs));
    assert_eq!(read_rom(Model::Spectrum48, &roots, &fs).unwrap().len(), 16384);
}

#[test]
fn wrong_size_rom_is_not_available() {
    let fs = FsView { probes: vec![file("w/roms/128/spec128uk.rom", vec![0; 100])] };
    let roots = vec!["w".to_string()];
    let states = rom_slot_states(Model::Spectrum128, &roots, &fs);
    assert_eq!(states.len(), 1);
    assert_eq!(states[0].status, RomSlotStatus::WrongSize);
    assert_eq!(states[0].resolved_path.as_deref(), Some("w/roms/128/spec128uk.rom"));
    assert!(!rom_available_in(Model::Spectrum128, &roots, &fs));
    let err = read_rom(Model::Spectrum128, &roots, &fs).expect_err("wrong size is not found");
    assert!(matches!(err, RomReadError::NotFound { .. }));
    assert_eq!(err.to_string(), "ROM for Spectrum 128K not found; Add roms/… or run ./scripts/fetch_roms.sh");
}

#[test]
fn missing_slot_state() {
    let desc = rom_slot_descriptors(Model::Spectrum48)[0];
    let st = rom_slot_state(Model::Spectrum48, desc, &["x".to_string()], &no_files());
    assert_eq!(st.status, RomSlotStatus::Missing);
    assert!(st.resolved_path.is_none());
}

#[test]
fn unavailable_reasons_name_the_missing_rom() {
    assert_eq!(
        unavailable_reason(Model::Pentagon128, &[], &no_files()),
        "Add roms/pentagon/pentagon.rom (user-provided; see Help → ROMs)"
    );
    assert_eq!(unavailable_reason(Model::SpectrumPlus2A, &[], &no_files()), "Add a ROM under roms/ or run ./scripts/fetch_roms.sh");
    let fs = FsView { probes: vec![file("t/roms/timex/tc2068-0.rom", vec![0; 16384])] };
    assert_eq!(
        unavailable_reason(Model::TimexTS2068, &["t".to_string()], &fs),
        "Add roms/timex/tc2068-1.rom or run ./scripts/fetch_roms.sh"
    );
}

#[test]
fn install_check_validates_slot_and_size() {
    let src = "/tmp/bad.rom".to_string();
    let err = install_slot_check(Model::Spectrum48, "main", &src, 8).expect_err("size");
    let msg = err.to_string();
    assert!(msg.contains("16384"), "{msg}");
    assert!(matches!(err, RomReadError::WrongSize { expected: 16384, got: 8, .. }));
    assert!(matches!(install_slot_check(Model::Spectrum48, "trdos", &src, 16384), Err(RomReadError::UnknownSlot(_))));
    let d = install_slot_check(Model::Pentagon128, "trdos", &src, TRDOS_ROM_SIZE).expect("trdos slot");
    assert_eq!(d.install_path, TRDOS_ROM_INSTALL_PATH);
}

#[test]
fn join_adds_one_separator() {
    assert_eq!(join_path(&"a".to_string(), "roms/x"), "a/roms/x");
    assert_eq!(join_path(&"a/".to_string(), "roms/x"), "a/roms/x");
    assert_eq!(join_path(&String::new(), "roms/x"), "roms/x");
}

#[test]
fn find_rom_slot_knows_each_models_slots() {
    let d = find_rom_slot(Model::Pentagon128, "trdos").ok().expect("trdos slot");
    assert_eq!(d.expected_bytes, 16384);
    assert_eq!(find_rom_slot(Model::TimexTS2068, "exrom").ok().expect("exrom").expected_bytes, 8192);
    assert!(matches!(find_rom_slot(Model::Spectrum48, "exrom"), Err(RomReadError::UnknownSlot(s)) if s == "exrom"));
}

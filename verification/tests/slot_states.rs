use spec_chum::machine::Model;
use spec_chum::rom_catalog::{rom_slot_descriptors, RomSlotStatus, ALL_MODELS};
use spec_chum::rom_resolve::{FileProbe, FsView};
use spec_chum::rom_slots::{override_for, rom_slot_state_with_override, rom_slot_states_with_overrides};

fn rom_file(path: &str, len: usize) -> FileProbe {
    FileProbe { path: path.to_string(), is_file: true, len: Some(len as u64), data: Ok(vec![0; len]) }
}

#[test]
fn slot_states_agree_with_single_slot_states() {
    let fs = FsView {
        probes: vec![
            rom_file("r/roms/128/spec128uk.rom", 32 * 1024),
            rom_file("r/roms/pentagon/trdos.rom", 100),
            rom_file("elsewhere/main.rom", 16 * 1024),
        ],
    };
    let roots = vec!["r".to_string()];
    let overrides = vec![
        ("main".to_string(), "elsewhere/main.rom".to_string()),
        ("main".to_string(), "ignored/second.rom".to_string()),
    ];
    for model in ALL_MODELS.iter().copied() {
        for ovs in [&overrides[..], &[][..]] {
            let states = rom_slot_states_with_overrides(model, &roots, ovs, &fs);
            let descs = rom_slot_descriptors(model);
            assert_eq!(states.len(), descs.len());
            for (st, d) in states.iter().zip(descs.iter()) {
                let single = rom_slot_state_with_override(*d, &roots, override_for(ovs, d.id), &fs);
                assert_eq!(*st, single);
            }
        }
    }
}

#[test]
fn first_override_entry_wins() {
    let overrides = vec![
        ("main".to_string(), "a.rom".to_string()),
        ("main".to_string(), "b.rom".to_string()),
    ];
    assert_eq!(override_for(&overrides, "main").map(|s| s.as_str()), Some("a.rom"));
    assert_eq!(override_for(&overrides, "trdos"), None);
    let fs = FsView { probes: vec![rom_file("a.rom", 16 * 1024)] };
    let states = rom_slot_states_with_overrides(Model::Spectrum48, &[], &overrides, &fs);
    assert_eq!(states[0].resolved_path.as_deref(), Some("a.rom"));
    assert_eq!(states[0].status, RomSlotStatus::Found);
}

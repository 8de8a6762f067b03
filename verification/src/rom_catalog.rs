//! ROM path catalog, model labels, ROM slot descriptors and TR-DOS image
//! heuristics.

use vstd::prelude::*;
use crate::machine::Model;

verus! {

/// Size of a TR-DOS ROM image (16 KiB).
pub const TRDOS_ROM_SIZE: usize = 16384;
/// Size of the Timex EX-ROM (8 KiB).
pub const TIMEX_EXROM_SIZE: usize = 8192;
/// Canonical install / picker path for a user-provided TR-DOS ROM.
pub const TRDOS_ROM_INSTALL_PATH: &'static str = "roms/pentagon/trdos.rom";

/// Canonical UI order for every host picker and menu.
pub const ALL_MODELS: [Model; 10] = [
    Model::Spectrum16K,
    Model::Spectrum48,
    Model::Spectrum128,
    Model::SpectrumPlus2,
    Model::SpectrumPlus2A,
    Model::SpectrumPlus3,
    Model::SpectrumPlus3e,
    Model::Pentagon128,
    Model::TimexTC2048,
    Model::TimexTS2068,
];

/// The texts of a list of strings.
pub open spec fn strs(s: Seq<&str>) -> Seq<Seq<char>> {
    s.map_values(|x: &str| x@)
}

/// Main-ROM search paths of `model`, first hit wins.
pub open spec fn main_paths(model: Model) -> Seq<Seq<char>> {
    match model {
        Model::Spectrum16K | Model::Spectrum48 => seq!["roms/spec48.rom"@],
        Model::TimexTC2048 => seq!["roms/timex/tc2048.rom"@],
        Model::TimexTS2068 => seq!["roms/timex/tc2068-0.rom"@],
        Model::Spectrum128 => seq!["roms/128/spec128uk.rom"@],
        Model::SpectrumPlus2 => seq!["roms/plus2/plus2uk.rom"@],
        Model::SpectrumPlus2A => seq!["roms/plus2a/plus2a.rom"@, "roms/plus3/plus3.rom"@],
        Model::SpectrumPlus3 => seq!["roms/plus3/plus3.rom"@],
        Model::SpectrumPlus3e => seq!["roms/plus3e/plus3e.rom"@],
        Model::Pentagon128 => seq!["roms/pentagon/pentagon.rom"@, "roms/pentagon/128p.rom"@],
    }
}

/// EX-ROM search paths.
pub open spec fn exrom_paths() -> Seq<Seq<char>> {
    seq!["roms/timex/tc2068-1.rom"@]
}

/// TR-DOS ROM search paths: complete dumps first, so that images with the
/// native file-load services win over the hole-filled 5.04 image.
pub open spec fn trdos_paths() -> Seq<Seq<char>> {
    seq![
        "roms/pentagon/trdos-5.04t.rom"@,
        "roms/pentagon/trdos-complete.rom"@,
        "roms/trdos/trdos-5.04t.rom"@,
        "roms/trdos/trdos-complete.rom"@,
        "roms/pentagon/trdos.rom"@,
        "roms/trdos/trdos.rom"@,
        "roms/trdos.rom"@,
    ]
}

/// Relative main-ROM search paths for a model (first hit wins).
pub fn rom_candidates(model: Model) -> (r: &'static [&'static str])
    ensures
        strs(r@) == main_paths(model),
{
    let r: &'static [&'static str] = match model {
        Model::Spectrum16K | Model::Spectrum48 => &["roms/spec48.rom"],
        Model::TimexTC2048 => &["roms/timex/tc2048.rom"],
        Model::TimexTS2068 => &["roms/timex/tc2068-0.rom"],
        Model::Spectrum128 => &["roms/128/spec128uk.rom"],
        Model::SpectrumPlus2 => &["roms/plus2/plus2uk.rom"],
        Model::SpectrumPlus2A => &["roms/plus2a/plus2a.rom", "roms/plus3/plus3.rom"],
        Model::SpectrumPlus3 => &["roms/plus3/plus3.rom"],
        Model::SpectrumPlus3e => &["roms/plus3e/plus3e.rom"],
        Model::Pentagon128 => &["roms/pentagon/pentagon.rom", "roms/pentagon/128p.rom"],
    };
    assert(strs(r@) =~= main_paths(model));
    r
}

/// Relative EX-ROM search paths (TS2068 / TC2068; first hit wins).
pub fn exrom_candidates(model: Model) -> (r: &'static [&'static str])
    ensures
        strs(r@) == exrom_paths(),
{
    let r: &'static [&'static str] = &["roms/timex/tc2068-1.rom"];
    assert(strs(r@) =~= exrom_paths());
    r
}

/// Relative TR-DOS ROM search paths (Pentagon / Beta attach).
pub fn trdos_rom_candidates(model: Model) -> (r: &'static [&'static str])
    ensures
        strs(r@) == trdos_paths(),
{
    let r: &'static [&'static str] = &[
        "roms/pentagon/trdos-5.04t.rom",
        "roms/pentagon/trdos-complete.rom",
        "roms/trdos/trdos-5.04t.rom",
        "roms/trdos/trdos-complete.rom",
        TRDOS_ROM_INSTALL_PATH,
        "roms/trdos/trdos.rom",
        "roms/trdos.rom",
    ];
    assert(strs(r@) =~= trdos_paths());
    r
}

/// Expected main-ROM size of `model`.
pub open spec fn main_rom_bytes(model: Model) -> usize {
    match model {
        Model::Spectrum16K | Model::Spectrum48 | Model::TimexTC2048 | Model::TimexTS2068 => 16384,
        Model::Spectrum128 | Model::SpectrumPlus2 | Model::Pentagon128 => 32768,
        Model::SpectrumPlus2A | Model::SpectrumPlus3 | Model::SpectrumPlus3e => 65536,
    }
}

/// A main ROM is one 16 KiB bank per ROM of the machine's family: one on the
/// 48K-class machines (16K, 48K, Timex), two (128 editor and 48 BASIC) on the
/// 128K-class machines (128, grey +2, Pentagon), four on the +2A, +3 and +3e.
pub proof fn lemma_main_rom_banks(model: Model)
    ensures
        (model is Spectrum16K || model is Spectrum48 || model is TimexTC2048 || model is TimexTS2068)
            ==> main_rom_bytes(model) == 16384,
        (model is Spectrum128 || model is SpectrumPlus2 || model is Pentagon128) ==> main_rom_bytes(model) == 2 * 16384,
        (model is SpectrumPlus2A || model is SpectrumPlus3 || model is SpectrumPlus3e)
            ==> main_rom_bytes(model) == 4 * 16384,
{
}

/// Expected main-ROM byte length for `model`.
pub fn expected_main_rom_bytes(model: Model) -> (r: usize)
    ensures
        r == main_rom_bytes(model),
{
    match model {
        Model::Spectrum16K | Model::Spectrum48 | Model::TimexTC2048 | Model::TimexTS2068 => 16 * 1024,
        Model::Spectrum128 | Model::SpectrumPlus2 | Model::Pentagon128 => 32 * 1024,
        Model::SpectrumPlus2A | Model::SpectrumPlus3 | Model::SpectrumPlus3e => 64 * 1024,
    }
}

/// Models whose main ROM is never fetched (user dumps / clone firmware).
pub fn requires_user_rom(model: Model) -> (r: bool)
    ensures
        r == (model is Pentagon128),
{
    match model {
        Model::Pentagon128 => true,
        _ => false,
    }
}

/// The model needs a separate TR-DOS ROM before boot.
pub fn requires_trdos_rom(model: Model) -> (r: bool)
    ensures
        r == (model is Pentagon128),
{
    match model {
        Model::Pentagon128 => true,
        _ => false,
    }
}

/// The model needs the Timex EX-ROM (8 KiB) before boot.
pub fn requires_exrom(model: Model) -> (r: bool)
    ensures
        r == (model is TimexTS2068),
{
    match model {
        Model::TimexTS2068 => true,
        _ => false,
    }
}

pub open spec fn label_of(model: Model) -> Seq<char> {
    match model {
        Model::Spectrum16K => "16K"@,
        Model::Spectrum48 => "48K"@,
        Model::Spectrum128 => "128K"@,
        Model::SpectrumPlus2 => "+2"@,
        Model::SpectrumPlus2A => "+2A"@,
        Model::SpectrumPlus3 => "+3"@,
        Model::SpectrumPlus3e => "+3e"@,
        Model::Pentagon128 => "Pentagon"@,
        Model::TimexTC2048 => "TC2048"@,
        Model::TimexTS2068 => "TS2068"@,
    }
}

pub open spec fn title_of(model: Model) -> Seq<char> {
    match model {
        Model::Spectrum16K => "Spectrum 16K"@,
        Model::Spectrum48 => "Spectrum 48K"@,
        Model::Spectrum128 => "Spectrum 128K"@,
        Model::SpectrumPlus2 => "Spectrum +2 (grey)"@,
        Model::SpectrumPlus2A => "Spectrum +2A"@,
        Model::SpectrumPlus3 => "Spectrum +3"@,
        Model::SpectrumPlus3e => "Spectrum +3e (enhanced)"@,
        Model::Pentagon128 => "Pentagon 128"@,
        Model::TimexTC2048 => "Timex TC2048"@,
        Model::TimexTS2068 => "Timex TS2068"@,
    }
}

/// `t` occurs in `s` as a contiguous piece.
pub open spec fn contains_text(s: Seq<char>, t: Seq<char>) -> bool {
    exists|k: int| 0 <= k && k + t.len() <= s.len() && #[trigger] s.subrange(k, k + t.len()) == t
}

/// Every model's title names its picker label, and no two models share a title.
pub proof fn lemma_titles_name_labels(m: Model, n: Model)
    ensures
        contains_text(title_of(m), label_of(m)),
        m != n ==> title_of(m) != title_of(n),
{
    reveal_strlit("16K");
    reveal_strlit("48K");
    reveal_strlit("128K");
    reveal_strlit("+2");
    reveal_strlit("+2A");
    reveal_strlit("+3");
    reveal_strlit("+3e");
    reveal_strlit("Pentagon");
    reveal_strlit("TC2048");
    reveal_strlit("TS2068");
    reveal_strlit("Spectrum 16K");
    reveal_strlit("Spectrum 48K");
    reveal_strlit("Spectrum 128K");
    reveal_strlit("Spectrum +2 (grey)");
    reveal_strlit("Spectrum +2A");
    reveal_strlit("Spectrum +3");
    reveal_strlit("Spectrum +3e (enhanced)");
    reveal_strlit("Pentagon 128");
    reveal_strlit("Timex TC2048");
    reveal_strlit("Timex TS2068");
    let t = title_of(m);
    let l = label_of(m);
    let k: int = if m is Pentagon128 { 0 } else if m is TimexTC2048 || m is TimexTS2068 { 6 } else { 9 };
    assert(t.subrange(k, k + l.len()) =~= l);
    if m != n && title_of(m) == title_of(n) {
        let u = title_of(n);
        assert(t.len() == u.len());
        assert(t[9] == u[9] && t[10] == u[10] && t[0] == u[0] && t[6] == u[6]);
        if t.len() > 11 {
            assert(t[11] == u[11]);
        }
        if t.len() > 12 {
            assert(t[12] == u[12]);
        }
    }
}

/// Short picker label.
pub fn model_label(model: Model) -> (r: &'static str)
    ensures
        r@ == label_of(model),
{
    match model {
        Model::Spectrum16K => "16K",
        Model::Spectrum48 => "48K",
        Model::Spectrum128 => "128K",
        Model::SpectrumPlus2 => "+2",
        Model::SpectrumPlus2A => "+2A",
        Model::SpectrumPlus3 => "+3",
        Model::SpectrumPlus3e => "+3e",
        Model::Pentagon128 => "Pentagon",
        Model::TimexTC2048 => "TC2048",
        Model::TimexTS2068 => "TS2068",
    }
}

/// Long picker / menu label.
pub fn model_title(model: Model) -> (r: &'static str)
    ensures
        r@ == title_of(model),
{
    match model {
        Model::Spectrum16K => "Spectrum 16K",
        Model::Spectrum48 => "Spectrum 48K",
        Model::Spectrum128 => "Spectrum 128K",
        Model::SpectrumPlus2 => "Spectrum +2 (grey)",
        Model::SpectrumPlus2A => "Spectrum +2A",
        Model::SpectrumPlus3 => "Spectrum +3",
        Model::SpectrumPlus3e => "Spectrum +3e (enhanced)",
        Model::Pentagon128 => "Pentagon 128",
        Model::TimexTC2048 => "Timex TC2048",
        Model::TimexTS2068 => "Timex TS2068",
    }
}

/// `08D2h` holds the 5.04T VG93 port-remap stub (`LD A,#2C; JP 0897h`).
pub open spec fn vg93_stub(data: Seq<u8>) -> bool {
    &&& data.len() >= 0x08d7
    &&& data[0x08d2] == 0x3e
    &&& data[0x08d3] == 0x2c
    &&& data[0x08d4] == 0xc3
    &&& data[0x08d5] == 0x97
    &&& data[0x08d6] == 0x08
}

/// A 16 KiB image with program bytes (neither `00` nor `FF`) at `08D2h` and `0D6Bh`.
pub open spec fn fills_hole(data: Seq<u8>) -> bool {
    &&& data.len() == TRDOS_ROM_SIZE
    &&& data[0x08d2] != 0x00 && data[0x08d2] != 0xff
    &&& data[0x0d6b] != 0x00 && data[0x0d6b] != 0xff
}

/// True when `08D2h` is the 5.04T VG93 port-remap stub, not a classic
/// TR-DOS file-load service.
pub fn trdos_rom_08d2_is_vg93_port_stub(data: &[u8]) -> (r: bool)
    ensures
        r == vg93_stub(data@),
{
    data.len() >= 0x08d7 && data[0x08d2] == 0x3e && data[0x08d3] == 0x2c && data[0x08d4] == 0xc3
        && data[0x08d5] == 0x97 && data[0x08d6] == 0x08
}

/// True when a 16 KiB TR-DOS image has real code in the usual 5.04 hole
/// region (rejects both `FF` padding and blank images).
pub fn trdos_rom_fills_0800_hole(data: &[u8]) -> (r: bool)
    ensures
        r == fills_hole(data@),
{
    data.len() == TRDOS_ROM_SIZE && data[0x08d2] != 0x00 && data[0x08d2] != 0xff && data[0x0d6b] != 0x00
        && data[0x0d6b] != 0xff
}

/// True when a 16 KiB TR-DOS image has a classic file-load service at `08D2h`.
pub fn trdos_rom_has_native_file_services(data: &[u8]) -> (r: bool)
    ensures
        r == (fills_hole(data@) && !vg93_stub(data@)),
{
    trdos_rom_fills_0800_hole(data) && !trdos_rom_08d2_is_vg93_port_stub(data)
}

/// Which ROM image a setup slot refers to.
#[derive(Clone, Copy, Debug, PartialEq, Eq, Structural)]
pub enum RomSlotKind {
    Main,
    Trdos,
    /// Timex TS2068 / TC2068 EX-ROM (8 KiB).
    ExRom,
}

/// Host picker / dialog status for one ROM slot.
#[derive(Clone, Copy, Debug, PartialEq, Eq, Structural)]
pub enum RomSlotStatus {
    Missing,
    Found,
    WrongSize,
}

/// Static catalog entry for a model's required ROM slot.
#[derive(Clone, Copy, Debug, PartialEq, Eq)]
pub struct RomSlotDescriptor {
    pub kind: RomSlotKind,
    pub id: &'static str,
    pub label: &'static str,
    /// Preferred relative path under a workspace root.
    pub install_path: &'static str,
    pub search_paths: &'static [&'static str],
    pub expected_bytes: usize,
    /// Never fetched (user dump / clone firmware).
    pub user_provided: bool,
}

/// `d` is the main-ROM slot of `model`.
pub open spec fn is_main_slot(d: RomSlotDescriptor, model: Model) -> bool {
    &&& d.kind == RomSlotKind::Main
    &&& d.id@ == "main"@
    &&& d.label@ == "Main ROM"@
    &&& d.install_path@ == main_paths(model)[0]
    &&& strs(d.search_paths@) == main_paths(model)
    &&& d.expected_bytes == main_rom_bytes(model)
    &&& d.user_provided == (model is Pentagon128)
}

/// `d` is the TR-DOS slot.
pub open spec fn is_trdos_slot(d: RomSlotDescriptor) -> bool {
    &&& d.kind == RomSlotKind::Trdos
    &&& d.id@ == "trdos"@
    &&& d.label@ == "TR-DOS ROM"@
    &&& d.install_path@ == TRDOS_ROM_INSTALL_PATH@
    &&& strs(d.search_paths@) == trdos_paths()
    &&& d.expected_bytes == TRDOS_ROM_SIZE
    &&& d.user_provided
}

/// `d` is the EX-ROM slot.
pub open spec fn is_exrom_slot(d: RomSlotDescriptor) -> bool {
    &&& d.kind == RomSlotKind::ExRom
    &&& d.id@ == "exrom"@
    &&& d.label@ == "EX-ROM"@
    &&& d.install_path@ == exrom_paths()[0]
    &&& strs(d.search_paths@) == exrom_paths()
    &&& d.expected_bytes == TIMEX_EXROM_SIZE
    &&& !d.user_provided
}

/// The slots of `model`: main, then TR-DOS or EX-ROM where the model needs one.
pub open spec fn slots_ok(s: Seq<RomSlotDescriptor>, model: Model) -> bool {
    &&& s.len() == (if model is Pentagon128 || model is TimexTS2068 { 2int } else { 1int })
    &&& is_main_slot(s[0], model)
    &&& model is Pentagon128 ==> is_trdos_slot(s[1])
    &&& model is TimexTS2068 ==> is_exrom_slot(s[1])
}

/// Catalog slots required to boot `model` (main, then TR-DOS or EX-ROM
/// when applicable).
pub fn rom_slot_descriptors(model: Model) -> (r: Vec<RomSlotDescriptor>)
    ensures
        slots_ok(r@, model),
{
    let cands = rom_candidates(model);
    assert(strs(cands@).len() == cands@.len());
    assert(main_paths(model).len() >= 1);
    let main = RomSlotDescriptor {
        kind: RomSlotKind::Main,
        id: "main",
        label: "Main ROM",
        install_path: cands[0],
        search_paths: cands,
        expected_bytes: expected_main_rom_bytes(model),
        user_provided: requires_user_rom(model),
    };
    let mut slots: Vec<RomSlotDescriptor> = Vec::new();
    slots.push(main);
    if requires_trdos_rom(model) {
        slots.push(RomSlotDescriptor {
            kind: RomSlotKind::Trdos,
            id: "trdos",
            label: "TR-DOS ROM",
            install_path: TRDOS_ROM_INSTALL_PATH,
            search_paths: trdos_rom_candidates(model),
            expected_bytes: TRDOS_ROM_SIZE,
            user_provided: true,
        });
    }
    if requires_exrom(model) {
        let ex = exrom_candidates(model);
        assert(strs(ex@).len() == ex@.len());
        slots.push(RomSlotDescriptor {
            kind: RomSlotKind::ExRom,
            id: "exrom",
            label: "EX-ROM",
            install_path: ex[0],
            search_paths: ex,
            expected_bytes: TIMEX_EXROM_SIZE,
            user_provided: false,
        });
    }
    slots
}

} // verus!

//! ROM read outcomes and the hint shown for a model that cannot boot.

use vstd::prelude::*;
use crate::machine::Model;
use crate::rom_catalog::{
    exrom_paths, main_paths, model_title, requires_exrom, requires_trdos_rom, requires_user_rom, rom_candidates,
    rom_slot_descriptors, slots_ok, title_of, trdos_paths, RomSlotDescriptor, RomSlotKind, TIMEX_EXROM_SIZE, TRDOS_ROM_SIZE,
};
use crate::rom_resolve::{find_probe, first_file, joined, lookup, texts, trdos_pick, FileProbe, FsView};
use crate::rom_slots::{
    lemma_slots_of, slot_of, SlotSpec, exrom_available_in, find_override, main_rom_available_in, model_slots, resolve_exrom_path_in_with_overrides,
    resolve_rom_path_in_with_overrides, resolve_trdos_rom_path_in_with_overrides, slot_found, trdos_rom_available_in,
};
use crate::tap::copy_range;
use crate::text::{dec, dec_chars};

verus! {

/// ROM resolve / read / install failures.
#[derive(Debug)]
pub enum RomReadError {
    NotFound { model: String, hint: String },
    TrdosNotFound { model: String, hint: String },
    ExromNotFound { model: String, hint: String },
    TrdosNotApplicable { model: String },
    ExromNotApplicable { model: String },
    UnknownSlot(String),
    WrongSize { kind: &'static str, expected: usize, got: usize, path: String },
    Io { op: &'static str, path: String, source: String },
}

/// The message of a [`RomReadError`].
pub open spec fn rom_error_text(e: RomReadError) -> Seq<char> {
    match e {
        RomReadError::NotFound { model, hint } => "ROM for "@ + model@ + " not found; "@ + hint@,
        RomReadError::TrdosNotFound { model, hint } => "TR-DOS ROM for "@ + model@ + " not found; "@ + hint@,
        RomReadError::ExromNotFound { model, hint } => "EX-ROM for "@ + model@ + " not found; "@ + hint@,
        RomReadError::TrdosNotApplicable { model } => model@ + " does not use a TR-DOS ROM"@,
        RomReadError::ExromNotApplicable { model } => model@ + " does not use an EX-ROM"@,
        RomReadError::UnknownSlot(id) => "unknown ROM slot “"@ + id@ + "”"@,
        RomReadError::WrongSize { kind, expected, got, path } => kind@ + " must be "@ + dec_chars(expected as nat)
            + " bytes, got "@ + dec_chars(got as nat) + " ("@ + path@ + ")"@,
        RomReadError::Io { op, path, source } => op@ + " "@ + path@ + ": "@ + source@,
    }
}

impl RomReadError {
    pub fn to_string(&self) -> (r: String)
        ensures
            r@ == rom_error_text(*self),
    {
        let mut s = String::new();
        match self {
            RomReadError::NotFound { model, hint } => {
                s.append("ROM for ");
                s.append(model.as_str());
                s.append(" not found; ");
                s.append(hint.as_str());
            },
            RomReadError::TrdosNotFound { model, hint } => {
                s.append("TR-DOS ROM for ");
                s.append(model.as_str());
                s.append(" not found; ");
                s.append(hint.as_str());
            },
            RomReadError::ExromNotFound { model, hint } => {
                s.append("EX-ROM for ");
                s.append(model.as_str());
                s.append(" not found; ");
                s.append(hint.as_str());
            },
            RomReadError::TrdosNotApplicable { model } => {
                s.append(model.as_str());
                s.append(" does not use a TR-DOS ROM");
            },
            RomReadError::ExromNotApplicable { model } => {
                s.append(model.as_str());
                s.append(" does not use an EX-ROM");
            },
            RomReadError::UnknownSlot(id) => {
                s.append("unknown ROM slot “");
                s.append(id.as_str());
                s.append("”");
            },
            RomReadError::WrongSize { kind, expected, got, path } => {
                s.append(kind);
                s.append(" must be ");
                let e = dec(*expected as u64);
                s.append(e.as_str());
                s.append(" bytes, got ");
                let g = dec(*got as u64);
                s.append(g.as_str());
                s.append(" (");
                s.append(path.as_str());
                s.append(")");
            },
            RomReadError::Io { op, path, source } => {
                s.append(op);
                s.append(" ");
                s.append(path.as_str());
                s.append(": ");
                s.append(source.as_str());
            },
        }
        s
    }
}

/// Hint shown when `model` cannot boot with the files under `roots`.
pub open spec fn reason_of(model: Model, fs: Seq<FileProbe>, roots: Seq<Seq<char>>) -> Seq<char> {
    let main_ok = first_file(fs, joined(roots, main_paths(model))) is Some;
    let trdos_ok = trdos_pick(fs, joined(roots, trdos_paths())) is Some;
    let exrom_ok = first_file(fs, joined(roots, exrom_paths())) is Some;
    if model is Pentagon128 && !main_ok {
        "Add roms/pentagon/pentagon.rom (user-provided; see Help → ROMs)"@
    } else if model is Pentagon128 && !trdos_ok {
        "Add roms/pentagon/trdos.rom (16 KiB TR-DOS; user-provided)"@
    } else if model is TimexTS2068 && !main_ok {
        "Add roms/timex/tc2068-0.rom or run ./scripts/fetch_roms.sh"@
    } else if model is TimexTS2068 && !exrom_ok {
        "Add roms/timex/tc2068-1.rom or run ./scripts/fetch_roms.sh"@
    } else if model is Pentagon128 {
        "Supply a ROM for this model (see Help → ROMs)"@
    } else if main_paths(model).len() == 1 {
        "Add roms/… or run ./scripts/fetch_roms.sh"@
    } else {
        "Add a ROM under roms/ or run ./scripts/fetch_roms.sh"@
    }
}

/// Hint shown when a model is disabled in the picker.
pub fn unavailable_reason(model: Model, roots: &[String], fs: &FsView) -> (r: &'static str)
    ensures
        r@ == reason_of(model, fs.probes@, texts(roots@)),
{
    if requires_trdos_rom(model) {
        if !main_rom_available_in(model, roots, fs) {
            return "Add roms/pentagon/pentagon.rom (user-provided; see Help → ROMs)";
        }
        if !trdos_rom_available_in(model, roots, fs) {
            return "Add roms/pentagon/trdos.rom (16 KiB TR-DOS; user-provided)";
        }
    }
    if requires_exrom(model) {
        if !main_rom_available_in(model, roots, fs) {
            return "Add roms/timex/tc2068-0.rom or run ./scripts/fetch_roms.sh";
        }
        if !exrom_available_in(model, roots, fs) {
            return "Add roms/timex/tc2068-1.rom or run ./scripts/fetch_roms.sh";
        }
    }
    if requires_user_rom(model) {
        return "Supply a ROM for this model (see Help → ROMs)";
    }
    let paths = rom_candidates(model);
    assert(crate::rom_catalog::strs(paths@).len() == paths@.len());
    if paths.len() == 1 {
        return "Add roms/… or run ./scripts/fetch_roms.sh";
    }
    "Add a ROM under roms/ or run ./scripts/fetch_roms.sh"
}

/// Outcome of reading the file at `p`: its bytes or the read error, `None`
/// when the path was not probed.
pub open spec fn read_at(fs: Seq<FileProbe>, p: Seq<char>) -> Option<Result<Seq<u8>, Seq<char>>> {
    match find_probe(fs, p) {
        None => None,
        Some(pr) => Some(match pr.data {
            Ok(d) => Ok(d@),
            Err(e) => Err(e@),
        }),
    }
}

/// `r` is the outcome of reading `p`: the bytes, or an `Io` error naming the
/// path (a path without a probe reads as an error).
pub open spec fn read_result(r: Result<Vec<u8>, RomReadError>, fs: Seq<FileProbe>, p: Seq<char>) -> bool {
    match read_at(fs, p) {
        Some(Ok(d)) => r matches Ok(v) && v@ == d,
        Some(Err(e)) => r matches Err(RomReadError::Io { op, path, source }) && op@ == "read"@ && path@ == p && source@ == e,
        None => r matches Err(RomReadError::Io { .. }),
    }
}

/// Read the file at `path` from the snapshot.
pub fn read_file(fs: &FsView, path: &String) -> (r: Result<Vec<u8>, RomReadError>)
    ensures
        read_result(r, fs.probes@, path@),
{
    match lookup(fs, path) {
        Some(k) => match &fs.probes[k].data {
            Ok(d) => {
                let v = copy_range(d.as_slice(), 0, d.len());
                assert(v@ =~= d@);
                Ok(v)
            },
            Err(e) => Err(RomReadError::Io { op: "read", path: path.clone(), source: e.clone() }),
        },
        None => Err(RomReadError::Io { op: "read", path: path.clone(), source: "not probed".to_owned() }),
    }
}

/// Main ROM bytes for `model` when available (an override wins).
/// The overrides are (slot id, path) pairs; where an id occurs more than
/// once, its first entry wins.
pub fn read_rom_with_overrides(
    model: Model,
    roots: &[String],
    overrides: &[(String, String)],
    fs: &FsView,
) -> (r: Result<Vec<u8>, RomReadError>)
    ensures
        match slot_found(fs.probes@, texts(roots@), model_slots(model)[0], find_override(overrides@, "main"@)) {
            None => r matches Err(RomReadError::NotFound { model: m, hint }) && m@ == title_of(model) && hint@
                == reason_of(model, fs.probes@, texts(roots@)),
            Some(p) => read_result(r, fs.probes@, p),
        },
{
    match resolve_rom_path_in_with_overrides(model, roots, overrides, fs) {
        None => Err(RomReadError::NotFound {
            model: model_title(model).to_owned(),
            hint: unavailable_reason(model, roots, fs).to_owned(),
        }),
        Some(path) => read_file(fs, &path),
    }
}

/// Main ROM bytes for `model` when available.
pub fn read_rom(model: Model, roots: &[String], fs: &FsView) -> (r: Result<Vec<u8>, RomReadError>)
    ensures
        match slot_found(fs.probes@, texts(roots@), model_slots(model)[0], None) {
            None => r matches Err(RomReadError::NotFound { model: m, hint }) && m@ == title_of(model) && hint@
                == reason_of(model, fs.probes@, texts(roots@)),
            Some(p) => read_result(r, fs.probes@, p),
        },
{
    let empty: Vec<(String, String)> = Vec::new();
    read_rom_with_overrides(model, roots, empty.as_slice(), fs)
}

/// `r` is a read of `p` checked against `expected` bytes.
pub open spec fn sized_result(r: Result<Vec<u8>, RomReadError>, fs: Seq<FileProbe>, p: Seq<char>, kind: Seq<char>, expected: usize) -> bool {
    match read_at(fs, p) {
        Some(Ok(d)) => if d.len() == expected {
            r matches Ok(v) && v@ == d
        } else {
            r matches Err(RomReadError::WrongSize { kind: k, expected: e, got, path }) && k@ == kind && e == expected
                && got == d.len() && path@ == p
        },
        Some(Err(e)) => r matches Err(RomReadError::Io { op, path, source }) && op@ == "read"@ && path@ == p && source@ == e,
        None => r matches Err(RomReadError::Io { .. }),
    }
}

/// TR-DOS ROM bytes when the model needs one and it is available.
/// The overrides are (slot id, path) pairs; where an id occurs more than
/// once, its first entry wins.
pub fn read_trdos_rom_with_overrides(
    model: Model,
    roots: &[String],
    overrides: &[(String, String)],
    fs: &FsView,
) -> (r: Result<Vec<u8>, RomReadError>)
    ensures
        !(model is Pentagon128) ==> (r matches Err(RomReadError::TrdosNotApplicable { model: m }) && m@ == title_of(model)),
        model is Pentagon128 ==> match slot_found(fs.probes@, texts(roots@), model_slots(model)[1], find_override(overrides@, "trdos"@)) {
            None => r matches Err(RomReadError::TrdosNotFound { model: m, hint }) && m@ == title_of(model) && hint@
                == reason_of(model, fs.probes@, texts(roots@)),
            Some(p) => sized_result(r, fs.probes@, p, "TR-DOS ROM"@, TRDOS_ROM_SIZE),
        },
{
    if !requires_trdos_rom(model) {
        return Err(RomReadError::TrdosNotApplicable { model: model_title(model).to_owned() });
    }
    let path = match resolve_trdos_rom_path_in_with_overrides(model, roots, overrides, fs) {
        None => {
            return Err(RomReadError::TrdosNotFound {
                model: model_title(model).to_owned(),
                hint: unavailable_reason(model, roots, fs).to_owned(),
            });
        },
        Some(p) => p,
    };
    let data = match read_file(fs, &path) {
        Err(e) => { return Err(e); },
        Ok(d) => d,
    };
    if data.len() != TRDOS_ROM_SIZE {
        return Err(RomReadError::WrongSize { kind: "TR-DOS ROM", expected: TRDOS_ROM_SIZE, got: data.len(), path });
    }
    Ok(data)
}

/// TR-DOS ROM bytes when the model needs one and it is available.
pub fn read_trdos_rom(model: Model, roots: &[String], fs: &FsView) -> (r: Result<Vec<u8>, RomReadError>)
    ensures
        !(model is Pentagon128) ==> (r matches Err(RomReadError::TrdosNotApplicable { model: m }) && m@ == title_of(model)),
        model is Pentagon128 ==> match slot_found(fs.probes@, texts(roots@), model_slots(model)[1], None) {
            None => r matches Err(RomReadError::TrdosNotFound { model: m, hint }) && m@ == title_of(model) && hint@
                == reason_of(model, fs.probes@, texts(roots@)),
            Some(p) => sized_result(r, fs.probes@, p, "TR-DOS ROM"@, TRDOS_ROM_SIZE),
        },
{
    let empty: Vec<(String, String)> = Vec::new();
    read_trdos_rom_with_overrides(model, roots, empty.as_slice(), fs)
}

/// EX-ROM bytes when the model needs one and it is available.
/// The overrides are (slot id, path) pairs; where an id occurs more than
/// once, its first entry wins.
pub fn read_exrom_with_overrides(
    model: Model,
    roots: &[String],
    overrides: &[(String, String)],
    fs: &FsView,
) -> (r: Result<Vec<u8>, RomReadError>)
    ensures
        !(model is TimexTS2068) ==> (r matches Err(RomReadError::ExromNotApplicable { model: m }) && m@ == title_of(model)),
        model is TimexTS2068 ==> match slot_found(fs.probes@, texts(roots@), model_slots(model)[1], find_override(overrides@, "exrom"@)) {
            None => r matches Err(RomReadError::ExromNotFound { model: m, hint }) && m@ == title_of(model) && hint@
                == reason_of(model, fs.probes@, texts(roots@)),
            Some(p) => sized_result(r, fs.probes@, p, "EX-ROM"@, TIMEX_EXROM_SIZE),
        },
{
    if !requires_exrom(model) {
        return Err(RomReadError::ExromNotApplicable { model: model_title(model).to_owned() });
    }
    let path = match resolve_exrom_path_in_with_overrides(model, roots, overrides, fs) {
        None => {
            return Err(RomReadError::ExromNotFound {
                model: model_title(model).to_owned(),
                hint: unavailable_reason(model, roots, fs).to_owned(),
            });
        },
        Some(p) => p,
    };
    let data = match read_file(fs, &path) {
        Err(e) => { return Err(e); },
        Ok(d) => d,
    };
    if data.len() != TIMEX_EXROM_SIZE {
        return Err(RomReadError::WrongSize { kind: "EX-ROM", expected: TIMEX_EXROM_SIZE, got: data.len(), path });
    }
    Ok(data)
}

/// EX-ROM bytes when the model needs one and it is available.
pub fn read_exrom(model: Model, roots: &[String], fs: &FsView) -> (r: Result<Vec<u8>, RomReadError>)
    ensures
        !(model is TimexTS2068) ==> (r matches Err(RomReadError::ExromNotApplicable { model: m }) && m@ == title_of(model)),
        model is TimexTS2068 ==> match slot_found(fs.probes@, texts(roots@), model_slots(model)[1], None) {
            None => r matches Err(RomReadError::ExromNotFound { model: m, hint }) && m@ == title_of(model) && hint@
                == reason_of(model, fs.probes@, texts(roots@)),
            Some(p) => sized_result(r, fs.probes@, p, "EX-ROM"@, TIMEX_EXROM_SIZE),
        },
{
    let empty: Vec<(String, String)> = Vec::new();
    read_exrom_with_overrides(model, roots, empty.as_slice(), fs)
}

/// Label of a slot of kind `k`.
pub open spec fn kind_label(k: RomSlotKind) -> Seq<char> {
    match k {
        RomSlotKind::Main => "Main ROM"@,
        RomSlotKind::Trdos => "TR-DOS ROM"@,
        RomSlotKind::ExRom => "EX-ROM"@,
    }
}

/// Index of the first slot with id `id`.
pub open spec fn slot_index(slots: Seq<SlotSpec>, id: Seq<char>) -> Option<int> {
    if slots.len() > 0 && slots[0].id == id {
        Some(0)
    } else if slots.len() > 1 && slots[1].id == id {
        Some(1)
    } else {
        None
    }
}

/// The slot `slot_id` of `model`, or [`RomReadError::UnknownSlot`].
pub fn find_rom_slot(model: Model, slot_id: &str) -> (r: Result<RomSlotDescriptor, RomReadError>)
    ensures
        match slot_index(model_slots(model), slot_id@) {
            None => r matches Err(RomReadError::UnknownSlot(id)) && id@ == slot_id@,
            Some(k) => r matches Ok(d) && slot_of(d) == model_slots(model)[k],
        },
{
    let descs = rom_slot_descriptors(model);
    proof {
        lemma_slots_of(descs@, model);
    }
    let want = slot_id.to_owned();
    let mut i: usize = 0;
    while i < descs.len()
        invariant
            i <= descs@.len(),
            descs@.len() == model_slots(model).len(),
            forall|k: int| 0 <= k < descs@.len() ==> slot_of(#[trigger] descs@[k]) == model_slots(model)[k],
            want@ == slot_id@,
            forall|k: int| 0 <= k < i ==> (#[trigger] model_slots(model)[k]).id != slot_id@,
        decreases descs@.len() - i,
    {
        let d = descs[i];
        assert(slot_of(descs@[i as int]) == model_slots(model)[i as int]);
        if d.id.to_owned() == want {
            return Ok(d);
        }
        i += 1;
    }
    Err(RomReadError::UnknownSlot(slot_id.to_owned()))
}

/// The slot `slot_id` of `model` that a `data_len`-byte file from `source`
/// may be installed into: the slot must exist and the size must match.
pub fn install_slot_check(model: Model, slot_id: &str, source: &String, data_len: usize) -> (r: Result<RomSlotDescriptor, RomReadError>)
    ensures
        match slot_index(model_slots(model), slot_id@) {
            None => r matches Err(RomReadError::UnknownSlot(id)) && id@ == slot_id@,
            Some(k) => {
                let s = model_slots(model)[k];
                if s.expected == data_len {
                    r matches Ok(d) && slot_of(d) == s && d.label@ == kind_label(s.kind)
                } else {
                    r matches Err(RomReadError::WrongSize { kind, expected, got, path }) && kind@ == kind_label(s.kind)
                        && expected == s.expected && got == data_len && path@ == source@
                }
            },
        },
{
    let descs = rom_slot_descriptors(model);
    proof {
        lemma_slots_of(descs@, model);
    }
    let want = slot_id.to_owned();
    let mut i: usize = 0;
    while i < descs.len()
        invariant
            i <= descs@.len(),
            descs@.len() == model_slots(model).len(),
            slots_ok(descs@, model),
            forall|k: int| 0 <= k < descs@.len() ==> slot_of(#[trigger] descs@[k]) == model_slots(model)[k],
            want@ == slot_id@,
            forall|k: int| 0 <= k < i ==> (#[trigger] model_slots(model)[k]).id != slot_id@,
        decreases descs@.len() - i,
    {
        let d = descs[i];
        assert(slot_of(descs@[i as int]) == model_slots(model)[i as int]);
        if d.id.to_owned() == want {
            if d.expected_bytes != data_len {
                return Err(RomReadError::WrongSize { kind: d.label, expected: d.expected_bytes, got: data_len, path: source.clone() });
            }
            return Ok(d);
        }
        i += 1;
    }
    Err(RomReadError::UnknownSlot(slot_id.to_owned()))
}

} // verus!

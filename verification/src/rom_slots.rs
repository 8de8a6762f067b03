//! ROM slot states, availability, path resolution with per-slot overrides,
//! and ROM reads over a file-system snapshot.

use vstd::prelude::*;
use crate::machine::Model;
use crate::rom_catalog::{
    exrom_candidates, exrom_paths, is_exrom_slot, is_main_slot, is_trdos_slot, main_paths, main_rom_bytes,
    model_title, requires_exrom, requires_trdos_rom, rom_candidates, rom_slot_descriptors, slots_ok, strs,
    title_of, trdos_paths, trdos_rom_candidates, RomSlotDescriptor, RomSlotKind, RomSlotStatus,
    TIMEX_EXROM_SIZE, TRDOS_ROM_SIZE,
};
use crate::rom_resolve::{
    find_probe, first_file, joined, lookup, resolve_first_in, resolve_trdos_rom_preferring_file_services,
    rom_path_status, status_at, texts, trdos_pick, FsView,
};
use crate::text::{dec, dec_chars};

verus! {

/// What decides a slot: its kind, id, search paths and expected size.
pub struct SlotSpec {
    pub kind: RomSlotKind,
    pub id: Seq<char>,
    pub search: Seq<Seq<char>>,
    pub expected: usize,
}

pub open spec fn slot_of(d: RomSlotDescriptor) -> SlotSpec {
    SlotSpec { kind: d.kind, id: d.id@, search: strs(d.search_paths@), expected: d.expected_bytes }
}

/// The slots of `model`: main, then TR-DOS (Pentagon) or EX-ROM (TS2068).
pub open spec fn model_slots(model: Model) -> Seq<SlotSpec> {
    let main = SlotSpec { kind: RomSlotKind::Main, id: "main"@, search: main_paths(model), expected: main_rom_bytes(model) };
    if model is Pentagon128 {
        seq![main, SlotSpec { kind: RomSlotKind::Trdos, id: "trdos"@, search: trdos_paths(), expected: TRDOS_ROM_SIZE }]
    } else if model is TimexTS2068 {
        seq![main, SlotSpec { kind: RomSlotKind::ExRom, id: "exrom"@, search: exrom_paths(), expected: TIMEX_EXROM_SIZE }]
    } else {
        seq![main]
    }
}

pub proof fn lemma_slots_of(s: Seq<RomSlotDescriptor>, model: Model)
    requires
        slots_ok(s, model),
    ensures
        s.map_values(|d: RomSlotDescriptor| slot_of(d)) == model_slots(model),
{
    assert(s.map_values(|d: RomSlotDescriptor| slot_of(d)) =~= model_slots(model));
}

/// Status and path of a slot: an override path is taken as it is; otherwise
/// the search paths under the roots are scanned (TR-DOS prefers images that
/// fill the 5.04 hole).
pub open spec fn slot_resolve(fs: Seq<crate::rom_resolve::FileProbe>, roots: Seq<Seq<char>>, s: SlotSpec, ov: Option<Seq<char>>) -> (RomSlotStatus, Option<Seq<char>>) {
    match ov {
        Some(p) => (status_at(fs, p, s.expected), Some(p)),
        None => {
            let c = joined(roots, s.search);
            let found = if s.kind == RomSlotKind::Trdos { trdos_pick(fs, c) } else { first_file(fs, c) };
            match found {
                Some(p) => (status_at(fs, p, s.expected), Some(p)),
                None => (RomSlotStatus::Missing, None),
            }
        },
    }
}

/// The resolved path of a slot when its status is `Found`.
pub open spec fn slot_found(fs: Seq<crate::rom_resolve::FileProbe>, roots: Seq<Seq<char>>, s: SlotSpec, ov: Option<Seq<char>>) -> Option<Seq<char>> {
    let (st, p) = slot_resolve(fs, roots, s, ov);
    if st == RomSlotStatus::Found { p } else { None }
}

/// The override path recorded for slot `id` (first entry wins).
pub open spec fn find_override(ovs: Seq<(String, String)>, id: Seq<char>) -> Option<Seq<char>>
    decreases ovs.len(),
{
    if ovs.len() == 0 {
        None
    } else if ovs[0].0@ == id {
        Some(ovs[0].1@)
    } else {
        find_override(ovs.skip(1), id)
    }
}

/// Every slot of `model` is `Found`.
pub open spec fn all_found(model: Model, fs: Seq<crate::rom_resolve::FileProbe>, roots: Seq<Seq<char>>, ovs: Seq<(String, String)>) -> bool {
    forall|k: int| 0 <= k < model_slots(model).len() ==> #[trigger] slot_resolve(
        fs,
        roots,
        model_slots(model)[k],
        find_override(ovs, model_slots(model)[k].id),
    ).0 == RomSlotStatus::Found
}

/// Availability agrees with resolution: a model whose ROM set is available
/// has a main ROM path, and a model with the main slot alone is available
/// exactly when that path holds a file of the expected size.
pub proof fn lemma_available_iff_resolved(model: Model, fs: Seq<crate::rom_resolve::FileProbe>, roots: Seq<Seq<char>>)
    ensures
        all_found(model, fs, roots, Seq::empty()) ==> first_file(fs, joined(roots, main_paths(model))) is Some,
        !(model is Pentagon128) && !(model is TimexTS2068) ==> (all_found(model, fs, roots, Seq::empty()) <==> (
        match first_file(fs, joined(roots, main_paths(model))) {
            Some(p) => status_at(fs, p, main_rom_bytes(model)) == RomSlotStatus::Found,
            None => false,
        })),
{
    let main = model_slots(model)[0];
    assert(find_override(Seq::<(String, String)>::empty(), main.id) is None);
    if all_found(model, fs, roots, Seq::empty()) {
        assert(slot_resolve(fs, roots, main, find_override(Seq::<(String, String)>::empty(), main.id)).0
            == RomSlotStatus::Found);
    }
}

/// A model with the main slot alone is available exactly when the first
/// regular file among its candidates under the roots is as long as the
/// model's main ROM (16 KiB per bank, see
/// [`crate::rom_catalog::lemma_main_rom_banks`]).
pub proof fn lemma_available_iff_rom_size(model: Model, fs: Seq<crate::rom_resolve::FileProbe>, roots: Seq<Seq<char>>)
    requires
        !(model is Pentagon128) && !(model is TimexTS2068),
    ensures
        all_found(model, fs, roots, Seq::empty()) <==> (first_file(fs, joined(roots, main_paths(model))) matches Some(p)
            && find_probe(fs, p) matches Some(f) && f.is_file && f.len == Some(main_rom_bytes(model) as u64)),
{
    lemma_available_iff_resolved(model, fs, roots);
}

/// Resolved slot state for the UI (status and optional on-disk path).
#[derive(Clone, Debug, PartialEq, Eq)]
pub struct RomSlotState {
    pub descriptor: RomSlotDescriptor,
    pub status: RomSlotStatus,
    pub resolved_path: Option<String>,
}

pub open spec fn opt_text(p: Option<String>) -> Option<Seq<char>> {
    match p {
        Some(s) => Some(s@),
        None => None,
    }
}

/// `st` is the state of its slot under `roots` with override `ov`.
pub open spec fn state_ok(st: RomSlotState, fs: Seq<crate::rom_resolve::FileProbe>, roots: Seq<Seq<char>>, ov: Option<Seq<char>>) -> bool {
    (st.status, opt_text(st.resolved_path)) == slot_resolve(fs, roots, slot_of(st.descriptor), ov)
}

/// The override recorded for slot `id`: the path of the first pair whose id
/// is `id`.
pub fn override_for<'a>(overrides: &'a [(String, String)], id: &str) -> (r: Option<&'a String>)
    ensures
        opt_text(match r { Some(s) => Some(*s), None => None }) == find_override(overrides@, id@),
{
    let key = id.to_owned();
    let n = overrides.len();
    let mut i: usize = 0;
    assert(overrides@.skip(0) =~= overrides@);
    while i < n
        invariant
            n == overrides@.len(),
            i <= n,
            key@ == id@,
            find_override(overrides@, id@) == find_override(overrides@.skip(i as int), id@),
        decreases n - i,
    {
        let ghost rest = overrides@.skip(i as int);
        assert(rest[0] == overrides@[i as int]);
        if overrides[i].0 == key {
            return Some(&overrides[i].1);
        }
        assert(rest.skip(1) =~= overrides@.skip(i + 1));
        i += 1;
    }
    None
}

/// The states of `model`'s slots, in catalog order (main first, then TR-DOS
/// or EX-ROM): each has its catalog descriptor and the status and path of
/// that slot under `roots` with the override recorded for its id.
pub open spec fn slot_states_ok(
    states: Seq<RomSlotState>,
    model: Model,
    fs: Seq<crate::rom_resolve::FileProbe>,
    roots: Seq<Seq<char>>,
    ovs: Seq<(String, String)>,
) -> bool {
    &&& slots_ok(states.map_values(|s: RomSlotState| s.descriptor), model)
    &&& states.len() == model_slots(model).len()
    &&& forall|k: int| 0 <= k < states.len() ==> slot_of((#[trigger] states[k]).descriptor) == model_slots(model)[k]
    &&& forall|k: int| 0 <= k < states.len() ==> state_ok(
        #[trigger] states[k],
        fs,
        roots,
        find_override(ovs, model_slots(model)[k].id),
    )
}

/// The states of all slots agree, slot by slot, with the state of one slot:
/// the `k`-th state that [`rom_slot_states_with_overrides`] gives is, in
/// status and path, the state that [`rom_slot_state_with_override`] gives
/// for the `k`-th catalog descriptor of the model with the override recorded
/// for its id, and both describe the same slot.
pub proof fn lemma_states_are_slot_states(
    model: Model,
    fs: Seq<crate::rom_resolve::FileProbe>,
    roots: Seq<Seq<char>>,
    ovs: Seq<(String, String)>,
    states: Seq<RomSlotState>,
    descs: Seq<RomSlotDescriptor>,
    k: int,
    single: RomSlotState,
)
    requires
        slot_states_ok(states, model, fs, roots, ovs),
        slots_ok(descs, model),
        0 <= k < descs.len(),
        single.descriptor == descs[k],
        state_ok(single, fs, roots, find_override(ovs, descs[k].id@)),
    ensures
        states.len() == descs.len(),
        slot_of(states[k].descriptor) == slot_of(single.descriptor),
        states[k].status == single.status,
        opt_text(states[k].resolved_path) == opt_text(single.resolved_path),
{
    lemma_slots_of(descs, model);
    assert(descs.map_values(|d: RomSlotDescriptor| slot_of(d))[k] == slot_of(descs[k]));
}

/// Resolve the on-disk status of one slot under `roots`, an override path first.
pub fn rom_slot_state_with_override(
    descriptor: RomSlotDescriptor,
    roots: &[String],
    override_path: Option<&String>,
    fs: &FsView,
) -> (r: RomSlotState)
    ensures
        r.descriptor == descriptor,
        state_ok(r, fs.probes@, texts(roots@), opt_text(match override_path { Some(s) => Some(*s), None => None })),
{
    if let Some(path) = override_path {
        let status = rom_path_status(fs, path, descriptor.expected_bytes);
        return RomSlotState { descriptor, status, resolved_path: Some(path.clone()) };
    }
    let path = if descriptor.kind == RomSlotKind::Trdos {
        resolve_trdos_rom_preferring_file_services(roots, descriptor.search_paths, fs)
    } else {
        resolve_first_in(roots, descriptor.search_paths, fs)
    };
    match path {
        Some(p) => {
            let status = rom_path_status(fs, &p, descriptor.expected_bytes);
            RomSlotState { descriptor, status, resolved_path: Some(p) }
        },
        None => RomSlotState { descriptor, status: RomSlotStatus::Missing, resolved_path: None },
    }
}

/// Resolve the on-disk status of one slot under `roots`.
pub fn rom_slot_state(model: Model, descriptor: RomSlotDescriptor, roots: &[String], fs: &FsView) -> (r: RomSlotState)
    ensures
        r.descriptor == descriptor,
        state_ok(r, fs.probes@, texts(roots@), None),
{
    rom_slot_state_with_override(descriptor, roots, None, fs)
}

/// All slot states of `model`, each with its override path when one is
/// recorded. The overrides are (slot id, path) pairs; where an id occurs more
/// than once, its first entry wins.
pub fn rom_slot_states_with_overrides(
    model: Model,
    roots: &[String],
    overrides: &[(String, String)],
    fs: &FsView,
) -> (r: Vec<RomSlotState>)
    ensures
        slot_states_ok(r@, model, fs.probes@, texts(roots@), overrides@),
        slots_ok(r@.map_values(|s: RomSlotState| s.descriptor), model),
        forall|k: int| 0 <= k < r@.len() ==> state_ok(
            #[trigger] r@[k],
            fs.probes@,
            texts(roots@),
            find_override(overrides@, r@[k].descriptor.id@),
        ),
{
    let descs = rom_slot_descriptors(model);
    let mut out: Vec<RomSlotState> = Vec::new();
    let mut i: usize = 0;
    while i < descs.len()
        invariant
            i <= descs@.len(),
            out@.len() == i,
            forall|k: int| 0 <= k < i ==> (#[trigger] out@[k]).descriptor == descs@[k],
            forall|k: int| 0 <= k < i ==> state_ok(
                #[trigger] out@[k],
                fs.probes@,
                texts(roots@),
                find_override(overrides@, out@[k].descriptor.id@),
            ),
        decreases descs@.len() - i,
    {
        let d = descs[i];
        let ov = override_for(overrides, d.id);
        let st = rom_slot_state_with_override(d, roots, ov, fs);
        out.push(st);
        i += 1;
    }
    assert(out@.map_values(|s: RomSlotState| s.descriptor) =~= descs@);
    proof {
        lemma_slots_of(descs@, model);
        assert forall|k: int| 0 <= k < out@.len() implies slot_of((#[trigger] out@[k]).descriptor) == model_slots(model)[k] by {
            assert(descs@.map_values(|d: RomSlotDescriptor| slot_of(d))[k] == slot_of(descs@[k]));
        }
    }
    out
}

/// All slot states of `model`.
pub fn rom_slot_states(model: Model, roots: &[String], fs: &FsView) -> (r: Vec<RomSlotState>)
    ensures
        slots_ok(r@.map_values(|s: RomSlotState| s.descriptor), model),
        forall|k: int| 0 <= k < r@.len() ==> state_ok(#[trigger] r@[k], fs.probes@, texts(roots@), None),
{
    let empty: Vec<(String, String)> = Vec::new();
    let r = rom_slot_states_with_overrides(model, roots, empty.as_slice(), fs);
    assert forall|k: int| 0 <= k < r@.len() implies state_ok(#[trigger] r@[k], fs.probes@, texts(roots@), None) by {
        assert(find_override(empty@, r@[k].descriptor.id@) is None);
    }
    r
}

/// Every slot of `model` is found (overrides first).
/// The overrides are (slot id, path) pairs; where an id occurs more than
/// once, its first entry wins.
pub fn rom_available_in_with_overrides(
    model: Model,
    roots: &[String],
    overrides: &[(String, String)],
    fs: &FsView,
) -> (r: bool)
    ensures
        r == all_found(model, fs.probes@, texts(roots@), overrides@),
{
    let states = rom_slot_states_with_overrides(model, roots, overrides, fs);
    proof {
        lemma_slots_of(states@.map_values(|s: RomSlotState| s.descriptor), model);
    }
    let ghost slots = model_slots(model);
    let mut i: usize = 0;
    while i < states.len()
        invariant
            i <= states@.len(),
            states@.len() == slots.len(),
            slots == model_slots(model),
            forall|k: int| 0 <= k < states@.len() ==> slot_of((#[trigger] states@[k]).descriptor) == slots[k],
            forall|k: int| 0 <= k < states@.len() ==> state_ok(
                #[trigger] states@[k],
                fs.probes@,
                texts(roots@),
                find_override(overrides@, states@[k].descriptor.id@),
            ),
            forall|k: int| 0 <= k < i ==> #[trigger] slot_resolve(fs.probes@, texts(roots@), slots[k], find_override(overrides@, slots[k].id)).0
                == RomSlotStatus::Found,
        decreases states@.len() - i,
    {
        assert(slot_of(states@[i as int].descriptor) == slots[i as int]);
        if states[i].status != RomSlotStatus::Found {
            assert(slot_resolve(fs.probes@, texts(roots@), slots[i as int], find_override(overrides@, slots[i as int].id)).0
                != RomSlotStatus::Found);
            return false;
        }
        i += 1;
    }
    true
}

/// Every slot of `model` is found.
pub fn rom_available_in(model: Model, roots: &[String], fs: &FsView) -> (r: bool)
    ensures
        r == all_found(model, fs.probes@, texts(roots@), Seq::empty()),
{
    let empty: Vec<(String, String)> = Vec::new();
    let r = rom_available_in_with_overrides(model, roots, empty.as_slice(), fs);
    assert(empty@ =~= Seq::<(String, String)>::empty());
    r
}

/// A main ROM candidate exists under `roots`.
pub fn main_rom_available_in(model: Model, roots: &[String], fs: &FsView) -> (r: bool)
    ensures
        r == (first_file(fs.probes@, joined(texts(roots@), main_paths(model))) is Some),
{
    resolve_first_in(roots, rom_candidates(model), fs).is_some()
}

/// The first main ROM candidate under `roots`.
pub fn resolve_rom_path_in(model: Model, roots: &[String], fs: &FsView) -> (r: Option<String>)
    ensures
        opt_text(r) == first_file(fs.probes@, joined(texts(roots@), main_paths(model))),
{
    resolve_first_in(roots, rom_candidates(model), fs)
}

/// The preferred TR-DOS ROM for models that need one.
pub fn resolve_trdos_rom_path_in(model: Model, roots: &[String], fs: &FsView) -> (r: Option<String>)
    ensures
        opt_text(r) == (if model is Pentagon128 {
            trdos_pick(fs.probes@, joined(texts(roots@), trdos_paths()))
        } else {
            None
        }),
{
    if !requires_trdos_rom(model) {
        return None;
    }
    resolve_trdos_rom_preferring_file_services(roots, trdos_rom_candidates(model), fs)
}

/// A TR-DOS ROM exists, or the model needs none.
pub fn trdos_rom_available_in(model: Model, roots: &[String], fs: &FsView) -> (r: bool)
    ensures
        r == (!(model is Pentagon128) || trdos_pick(fs.probes@, joined(texts(roots@), trdos_paths())) is Some),
{
    if !requires_trdos_rom(model) {
        return true;
    }
    resolve_trdos_rom_path_in(model, roots, fs).is_some()
}

/// The first EX-ROM candidate for models that need one.
pub fn resolve_exrom_path_in(model: Model, roots: &[String], fs: &FsView) -> (r: Option<String>)
    ensures
        opt_text(r) == (if model is TimexTS2068 {
            first_file(fs.probes@, joined(texts(roots@), exrom_paths()))
        } else {
            None
        }),
{
    if !requires_exrom(model) {
        return None;
    }
    resolve_first_in(roots, exrom_candidates(model), fs)
}

/// An EX-ROM exists, or the model needs none.
pub fn exrom_available_in(model: Model, roots: &[String], fs: &FsView) -> (r: bool)
    ensures
        r == (!(model is TimexTS2068) || first_file(fs.probes@, joined(texts(roots@), exrom_paths())) is Some),
{
    if !requires_exrom(model) {
        return true;
    }
    resolve_first_in(roots, exrom_candidates(model), fs).is_some()
}

/// The main ROM path when its slot is found (an override wins over the search).
/// The overrides are (slot id, path) pairs; where an id occurs more than
/// once, its first entry wins.
pub fn resolve_rom_path_in_with_overrides(
    model: Model,
    roots: &[String],
    overrides: &[(String, String)],
    fs: &FsView,
) -> (r: Option<String>)
    ensures
        opt_text(r) == slot_found(fs.probes@, texts(roots@), model_slots(model)[0], find_override(overrides@, "main"@)),
{
    let descs = rom_slot_descriptors(model);
    proof {
        lemma_slots_of(descs@, model);
        assert(slot_of(descs@[0]) == model_slots(model)[0]);
    }
    let st = rom_slot_state_with_override(descs[0], roots, override_for(overrides, "main"), fs);
    if st.status == RomSlotStatus::Found { st.resolved_path } else { None }
}

/// The TR-DOS ROM path when its slot is found (an override wins).
/// The overrides are (slot id, path) pairs; where an id occurs more than
/// once, its first entry wins.
pub fn resolve_trdos_rom_path_in_with_overrides(
    model: Model,
    roots: &[String],
    overrides: &[(String, String)],
    fs: &FsView,
) -> (r: Option<String>)
    ensures
        opt_text(r) == (if model is Pentagon128 {
            slot_found(fs.probes@, texts(roots@), model_slots(model)[1], find_override(overrides@, "trdos"@))
        } else {
            None
        }),
{
    if !requires_trdos_rom(model) {
        return None;
    }
    let descs = rom_slot_descriptors(model);
    proof {
        lemma_slots_of(descs@, model);
        assert(slot_of(descs@[1]) == model_slots(model)[1]);
    }
    let st = rom_slot_state_with_override(descs[1], roots, override_for(overrides, "trdos"), fs);
    if st.status == RomSlotStatus::Found { st.resolved_path } else { None }
}

/// The EX-ROM path when its slot is found (an override wins).
/// The overrides are (slot id, path) pairs; where an id occurs more than
/// once, its first entry wins.
pub fn resolve_exrom_path_in_with_overrides(
    model: Model,
    roots: &[String],
    overrides: &[(String, String)],
    fs: &FsView,
) -> (r: Option<String>)
    ensures
        opt_text(r) == (if model is TimexTS2068 {
            slot_found(fs.probes@, texts(roots@), model_slots(model)[1], find_override(overrides@, "exrom"@))
        } else {
            None
        }),
{
    if !requires_exrom(model) {
        return None;
    }
    let descs = rom_slot_descriptors(model);
    proof {
        lemma_slots_of(descs@, model);
        assert(slot_of(descs@[1]) == model_slots(model)[1]);
    }
    let st = rom_slot_state_with_override(descs[1], roots, override_for(overrides, "exrom"), fs);
    if st.status == RomSlotStatus::Found { st.resolved_path } else { None }
}

} // verus!

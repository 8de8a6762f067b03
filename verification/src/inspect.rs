//! Inspect snapshot parts for agents, the CLI and debugger UIs, and their
//! hand-rolled JSON.

use vstd::prelude::*;
use crate::machine::Model;
use crate::tap::{mem_at, read_at};
use crate::tape_trap::mem_word;
use crate::text::{dec, dec_chars, hex2, hex2_chars, hex_upper, hex_upper_chars, opt_debug, opt_debug_chars, push_char};

verus! {

/// Memory paging registers.
#[derive(Clone, Debug, PartialEq, Eq)]
pub struct Paging {
    pub page_7ffd: Option<u8>,
    pub page_1ffd: Option<u8>,
    pub rom_bank: u8,
    pub ram_c000: Option<u8>,
    pub screen_bank: Option<u8>,
    pub special: bool,
    pub locked: bool,
}

impl Paging {
    /// A 48K-class machine: no paging registers, ROM 0.
    pub fn fixed() -> (p: Self)
        ensures
            p == (Paging {
                page_7ffd: None,
                page_1ffd: None,
                rom_bank: 0,
                ram_c000: None,
                screen_bank: None,
                special: false,
                locked: false,
            }),
    {
        Paging {
            page_7ffd: None,
            page_1ffd: None,
            rom_bank: 0,
            ram_c000: None,
            screen_bank: None,
            special: false,
            locked: false,
        }
    }

    /// A 128K machine from its `7FFD` latch: bit 4 selects the ROM, bits 0-2
    /// the RAM bank at `C000`, and bit 3 the screen in bank 7 instead of 5.
    pub fn from_7ffd(page: u8, locked: bool) -> (p: Self)
        ensures
            p == (Paging {
                page_7ffd: Some(page),
                page_1ffd: None,
                rom_bank: if page & 0x10 != 0 { 1 } else { 0 },
                ram_c000: Some(page & 7),
                screen_bank: Some(if page & 0x08 != 0 { 7 } else { 5 }),
                special: false,
                locked,
            }),
    {
        Paging {
            page_7ffd: Some(page),
            page_1ffd: None,
            rom_bank: if page & 0x10 != 0 { 1 } else { 0 },
            ram_c000: Some(page & 7),
            screen_bank: Some(if page & 0x08 != 0 { 7 } else { 5 }),
            special: false,
            locked,
        }
    }

    /// Paging of a +2A or +3: both latches, with the ROM number and the
    /// special-paging flag as the bus reports them.
    pub fn from_plus3(page_7ffd: u8, page_1ffd: u8, rom_bank: u8, special: bool, locked: bool) -> (p: Self)
        ensures
            p == (Paging {
                page_7ffd: Some(page_7ffd),
                page_1ffd: Some(page_1ffd),
                rom_bank,
                ram_c000: Some(page_7ffd & 7),
                screen_bank: Some(if page_7ffd & 0x08 != 0 { 7 } else { 5 }),
                special,
                locked,
            }),
    {
        Paging {
            page_7ffd: Some(page_7ffd),
            page_1ffd: Some(page_1ffd),
            rom_bank,
            ram_c000: Some(page_7ffd & 7),
            screen_bank: Some(if page_7ffd & 0x08 != 0 { 7 } else { 5 }),
            special,
            locked,
        }
    }
}

/// Raster line and position within it of frame T-state `frame_t`.
pub fn raster_position(frame_t: u32, t_line: u32) -> (r: (u32, u32))
    requires
        t_line > 0,
    ensures
        r == (frame_t / t_line, frame_t % t_line),
{
    (frame_t / t_line, frame_t % t_line)
}

/// Tape deck state.
#[derive(Clone, Debug, PartialEq, Eq)]
pub struct TapeInspect {
    pub playing: bool,
    pub flash_load: bool,
    pub experience_load: bool,
    pub speed: u32,
    pub block_index: u32,
    pub block_count: u32,
}

/// Beta Disk / VG93 FDC snapshot (TR-DOS diagnostics).
#[derive(Clone, Debug, PartialEq, Eq)]
pub struct BetaInspect {
    pub paged: bool,
    pub track: u8,
    pub sector: u8,
    pub status: u8,
    pub system: u8,
    pub sector_read_count: u32,
    pub cmd_count: u32,
    pub recent_cmds: [u8; 4],
    pub command_ring: Vec<u8>,
}

/// `1` or `0`.
pub open spec fn flag(b: bool) -> Seq<char> {
    dec_chars(if b { 1nat } else { 0nat })
}

/// Decimal values separated by commas.
pub open spec fn dec_list(s: Seq<u8>) -> Seq<char>
    decreases s.len(),
{
    if s.len() == 0 {
        Seq::empty()
    } else if s.len() == 1 {
        dec_chars(s[0] as nat)
    } else {
        dec_list(s.drop_last()) + seq![','] + dec_chars(s.last() as nat)
    }
}

pub open spec fn tape_json_text(t: TapeInspect) -> Seq<char> {
    "{\"playing\":"@ + flag(t.playing) + ",\"flash_load\":"@ + flag(t.flash_load) + ",\"experience_load\":"@
        + flag(t.experience_load) + ",\"speed\":"@ + dec_chars(t.speed as nat) + ",\"block\":"@ + dec_chars(
        t.block_index as nat,
    ) + ",\"blocks\":"@ + dec_chars(t.block_count as nat) + "}"@
}

pub open spec fn beta_json_text(b: BetaInspect) -> Seq<char> {
    "{\"paged\":"@ + flag(b.paged) + ",\"track\":"@ + dec_chars(b.track as nat) + ",\"sector\":"@ + dec_chars(
        b.sector as nat,
    ) + ",\"status\":"@ + dec_chars(b.status as nat) + ",\"system\":"@ + dec_chars(b.system as nat)
        + ",\"sector_read_count\":"@ + dec_chars(b.sector_read_count as nat) + ",\"cmd_count\":"@ + dec_chars(
        b.cmd_count as nat,
    ) + ",\"recent_cmds\":["@ + dec_list(b.recent_cmds@) + "],\"command_ring\":["@ + dec_list(b.command_ring@)
        + "]}"@
}

/// `1` or `0`.
pub fn flag_text(b: bool) -> (s: String)
    ensures
        s@ == flag(b),
{
    dec(if b { 1 } else { 0 })
}

/// Decimal values of `v` separated by commas.
pub fn dec_list_text(v: &[u8]) -> (s: String)
    ensures
        s@ == dec_list(v@),
{
    let mut s = String::new();
    let mut i: usize = 0;
    assert(v@.take(0) =~= Seq::<u8>::empty());
    while i < v.len()
        invariant
            i <= v@.len(),
            s@ == dec_list(v@.take(i as int)),
        decreases v@.len() - i,
    {
        let ghost before = s@;
        if i > 0 {
            s.append(",");
            proof { reveal_strlit(","); }
        }
        let d = dec(v[i] as u64);
        s.append(d.as_str());
        proof {
            let t = v@.take(i + 1);
            assert(t.drop_last() =~= v@.take(i as int));
            assert(t.last() == v@[i as int]);
            if i == 0 {
                assert(before =~= Seq::<char>::empty());
                assert(s@ =~= dec_chars(v@[0] as nat));
            } else {
                assert(s@ =~= before + seq![','] + dec_chars(v@[i as int] as nat));
            }
        }
        i += 1;
    }
    assert(v@.take(v@.len() as int) =~= v@);
    s
}

/// The tape state as a JSON object.
pub fn tape_json(t: &TapeInspect) -> (s: String)
    ensures
        s@ == tape_json_text(*t),
{
    let mut s = "{\"playing\":".to_owned();
    s.append(flag_text(t.playing).as_str());
    s.append(",\"flash_load\":");
    s.append(flag_text(t.flash_load).as_str());
    s.append(",\"experience_load\":");
    s.append(flag_text(t.experience_load).as_str());
    s.append(",\"speed\":");
    s.append(dec(t.speed as u64).as_str());
    s.append(",\"block\":");
    s.append(dec(t.block_index as u64).as_str());
    s.append(",\"blocks\":");
    s.append(dec(t.block_count as u64).as_str());
    s.append("}");
    s
}

/// The Beta Disk state as a JSON object.
pub fn beta_json(b: &BetaInspect) -> (s: String)
    ensures
        s@ == beta_json_text(*b),
{
    let mut s = "{\"paged\":".to_owned();
    s.append(flag_text(b.paged).as_str());
    s.append(",\"track\":");
    s.append(dec(b.track as u64).as_str());
    s.append(",\"sector\":");
    s.append(dec(b.sector as u64).as_str());
    s.append(",\"status\":");
    s.append(dec(b.status as u64).as_str());
    s.append(",\"system\":");
    s.append(dec(b.system as u64).as_str());
    s.append(",\"sector_read_count\":");
    s.append(dec(b.sector_read_count as u64).as_str());
    s.append(",\"cmd_count\":");
    s.append(dec(b.cmd_count as u64).as_str());
    s.append(",\"recent_cmds\":[");
    s.append(dec_list_text(&b.recent_cmds).as_str());
    s.append("],\"command_ring\":[");
    s.append(dec_list_text(b.command_ring.as_slice()).as_str());
    s.append("]}");
    s
}

/// A byte in decimal, or `null`.
pub fn opt_u8(v: Option<u8>) -> (s: String)
    ensures
        s@ == (match v {
            Some(n) => dec_chars(n as nat),
            None => "null"@,
        }),
{
    match v {
        Some(n) => dec(n as u64),
        None => "null".to_owned(),
    }
}

/// The Z80 register file as the snapshot records it.
#[derive(Clone, Copy, Debug, PartialEq, Eq, Structural)]
pub struct CpuRegs {
    pub a: u8,
    pub f: u8,
    pub b: u8,
    pub c: u8,
    pub d: u8,
    pub e: u8,
    pub h: u8,
    pub l: u8,
    pub a_: u8,
    pub f_: u8,
    pub b_: u8,
    pub c_: u8,
    pub d_: u8,
    pub e_: u8,
    pub h_: u8,
    pub l_: u8,
    pub ix: u16,
    pub iy: u16,
    pub sp: u16,
    pub pc: u16,
    pub i: u8,
    pub r: u8,
    pub im: u8,
    pub memptr: u16,
    pub iff1: bool,
    pub iff2: bool,
    pub halted: bool,
}

/// Full architectural and ULA/bus snapshot (no framebuffer).
#[derive(Clone, Debug)]
pub struct Inspect {
    pub model: Model,
    pub regs: CpuRegs,
    pub cpu_t: u64,
    pub frame_t: u32,
    pub t_line: u32,
    pub lines: u32,
    pub frame_tstates: u32,
    pub raster_line: u32,
    pub raster_x: u32,
    pub int_active: bool,
    pub int_length: u32,
    pub contend_at_pc: u32,
    pub floating_bus: Option<u8>,
    pub border: u8,
    pub ear: bool,
    pub mic: bool,
    pub beeper: bool,
    pub paging: Paging,
    pub tape: Option<TapeInspect>,
    pub ay_regs: Option<[u8; 16]>,
    pub ay_selected: Option<u8>,
    pub beta: Option<BetaInspect>,
}

/// Register pair `hi:lo`.
pub open spec fn pair(hi: u8, lo: u8) -> nat {
    (hi as nat) * 256 + lo as nat
}

fn pair_value(hi: u8, lo: u8) -> (v: u64)
    ensures
        v as nat == pair(hi, lo),
{
    hi as u64 * 256 + lo as u64
}

/// A byte in decimal, or `null`.
pub open spec fn opt_dec_chars(v: Option<u8>) -> Seq<char> {
    match v {
        Some(n) => dec_chars(n as nat),
        None => "null"@,
    }
}

/// Model name in the JSON snapshot.
pub open spec fn model_json_name(m: Model) -> Seq<char> {
    match m {
        Model::Spectrum16K => "16k"@,
        Model::Spectrum48 => "48k"@,
        Model::Spectrum128 => "128k"@,
        Model::SpectrumPlus2 => "plus2"@,
        Model::SpectrumPlus2A => "plus2a"@,
        Model::SpectrumPlus3 => "plus3"@,
        Model::SpectrumPlus3e => "plus3e"@,
        Model::Pentagon128 => "pentagon128"@,
        Model::TimexTC2048 => "timex_tc2048"@,
        Model::TimexTS2068 => "timex_ts2068"@,
    }
}

pub fn model_json(m: Model) -> (s: &'static str)
    ensures
        s@ == model_json_name(m),
{
    match m {
        Model::Spectrum16K => "16k",
        Model::Spectrum48 => "48k",
        Model::Spectrum128 => "128k",
        Model::SpectrumPlus2 => "plus2",
        Model::SpectrumPlus2A => "plus2a",
        Model::SpectrumPlus3 => "plus3",
        Model::SpectrumPlus3e => "plus3e",
        Model::Pentagon128 => "pentagon128",
        Model::TimexTC2048 => "timex_tc2048",
        Model::TimexTS2068 => "timex_ts2068",
    }
}

/// Model name in the text snapshot (the variant name).
pub open spec fn model_debug_name(m: Model) -> Seq<char> {
    match m {
        Model::Spectrum16K => "Spectrum16K"@,
        Model::Spectrum48 => "Spectrum48"@,
        Model::Spectrum128 => "Spectrum128"@,
        Model::SpectrumPlus2 => "SpectrumPlus2"@,
        Model::SpectrumPlus2A => "SpectrumPlus2A"@,
        Model::SpectrumPlus3 => "SpectrumPlus3"@,
        Model::SpectrumPlus3e => "SpectrumPlus3e"@,
        Model::Pentagon128 => "Pentagon128"@,
        Model::TimexTC2048 => "TimexTC2048"@,
        Model::TimexTS2068 => "TimexTS2068"@,
    }
}

pub fn model_debug(m: Model) -> (s: &'static str)
    ensures
        s@ == model_debug_name(m),
{
    match m {
        Model::Spectrum16K => "Spectrum16K",
        Model::Spectrum48 => "Spectrum48",
        Model::Spectrum128 => "Spectrum128",
        Model::SpectrumPlus2 => "SpectrumPlus2",
        Model::SpectrumPlus2A => "SpectrumPlus2A",
        Model::SpectrumPlus3 => "SpectrumPlus3",
        Model::SpectrumPlus3e => "SpectrumPlus3e",
        Model::Pentagon128 => "Pentagon128",
        Model::TimexTC2048 => "TimexTC2048",
        Model::TimexTS2068 => "TimexTS2068",
    }
}

/// Timing, ULA and EAR fields of the JSON snapshot, up to the registers.
pub open spec fn head_json_text(x: Inspect) -> Seq<char> {
    "{\"model\":\""@ + model_json_name(x.model) + "\",\"t\":"@ + dec_chars(x.cpu_t as nat) + ",\"frame_t\":"@
        + dec_chars(x.frame_t as nat) + ",\"line\":"@ + dec_chars(x.raster_line as nat) + ",\"x\":"@ + dec_chars(
        x.raster_x as nat,
    ) + ",\"int\":"@ + flag(x.int_active) + ",\"contend_pc\":"@ + dec_chars(x.contend_at_pc as nat)
        + ",\"floating_bus\":"@ + opt_dec_chars(x.floating_bus) + ",\"border\":"@ + dec_chars(x.border as nat)
        + ",\"ear\":"@ + flag(x.ear) + ",\"beeper\":"@ + flag(x.beeper) + ","@
}

/// Register fields of the JSON snapshot.
pub open spec fn regs_json_text(r: CpuRegs) -> Seq<char> {
    "\"pc\":"@ + dec_chars(r.pc as nat) + ",\"sp\":"@ + dec_chars(r.sp as nat) + ",\"af\":"@ + dec_chars(
        pair(r.a, r.f),
    ) + ",\"bc\":"@ + dec_chars(pair(r.b, r.c)) + ",\"de\":"@ + dec_chars(pair(r.d, r.e)) + ",\"hl\":"@
        + dec_chars(pair(r.h, r.l)) + ",\"ix\":"@ + dec_chars(r.ix as nat) + ",\"iy\":"@ + dec_chars(r.iy as nat)
        + ",\"af_\":"@ + dec_chars(pair(r.a_, r.f_)) + ",\"bc_\":"@ + dec_chars(pair(r.b_, r.c_)) + ",\"de_\":"@
        + dec_chars(pair(r.d_, r.e_)) + ",\"hl_\":"@ + dec_chars(pair(r.h_, r.l_)) + ",\"i\":"@ + dec_chars(
        r.i as nat,
    ) + ",\"r\":"@ + dec_chars(r.r as nat) + ",\"im\":"@ + dec_chars(r.im as nat) + ",\"memptr\":"@ + dec_chars(
        r.memptr as nat,
    ) + ",\"iff1\":"@ + flag(r.iff1) + ",\"iff2\":"@ + flag(r.iff2) + ",\"halted\":"@ + flag(r.halted) + ","@
}

/// Paging fields of the JSON snapshot.
pub open spec fn paging_json_text(p: Paging) -> Seq<char> {
    "\"page_7ffd\":"@ + opt_dec_chars(p.page_7ffd) + ",\"page_1ffd\":"@ + opt_dec_chars(p.page_1ffd) + ",\"rom\":"@
        + dec_chars(p.rom_bank as nat) + ",\"ram_c000\":"@ + opt_dec_chars(p.ram_c000) + ",\"screen\":"@
        + opt_dec_chars(p.screen_bank) + ","@
}

/// The AY registers (and the selected one) as a JSON object, or `null`.
pub open spec fn ay_json_text(regs: Option<[u8; 16]>, selected: Option<u8>) -> Seq<char> {
    match regs {
        None => "null"@,
        Some(rs) => "{\"selected\":"@ + dec_chars(
            match selected {
                Some(n) => n as nat,
                None => 0nat,
            },
        ) + ",\"regs\":["@ + dec_list(rs@) + "]}"@,
    }
}

/// The whole snapshot as one JSON object.
pub open spec fn inspect_json_text(x: Inspect) -> Seq<char> {
    head_json_text(x) + regs_json_text(x.regs) + paging_json_text(x.paging) + "\"tape\":"@ + (match x.tape {
        Some(t) => tape_json_text(t),
        None => "null"@,
    }) + ",\"ay\":"@ + ay_json_text(x.ay_regs, x.ay_selected) + ",\"beta\":"@ + (match x.beta {
        Some(b) => beta_json_text(b),
        None => "null"@,
    }) + "}"@
}

fn head_json(x: &Inspect) -> (s: String)
    ensures
        s@ == head_json_text(*x),
{
    let mut s = "{\"model\":\"".to_owned();
    s.append(model_json(x.model));
    s.append("\",\"t\":");
    s.append(dec(x.cpu_t).as_str());
    s.append(",\"frame_t\":");
    s.append(dec(x.frame_t as u64).as_str());
    s.append(",\"line\":");
    s.append(dec(x.raster_line as u64).as_str());
    s.append(",\"x\":");
    s.append(dec(x.raster_x as u64).as_str());
    s.append(",\"int\":");
    s.append(flag_text(x.int_active).as_str());
    s.append(",\"contend_pc\":");
    s.append(dec(x.contend_at_pc as u64).as_str());
    s.append(",\"floating_bus\":");
    s.append(opt_u8(x.floating_bus).as_str());
    s.append(",\"border\":");
    s.append(dec(x.border as u64).as_str());
    s.append(",\"ear\":");
    s.append(flag_text(x.ear).as_str());
    s.append(",\"beeper\":");
    s.append(flag_text(x.beeper).as_str());
    s.append(",");
    s
}

fn regs_json(r: &CpuRegs) -> (s: String)
    ensures
        s@ == regs_json_text(*r),
{
    let mut s = "\"pc\":".to_owned();
    s.append(dec(r.pc as u64).as_str());
    s.append(",\"sp\":");
    s.append(dec(r.sp as u64).as_str());
    s.append(",\"af\":");
    s.append(dec(pair_value(r.a, r.f)).as_str());
    s.append(",\"bc\":");
    s.append(dec(pair_value(r.b, r.c)).as_str());
    s.append(",\"de\":");
    s.append(dec(pair_value(r.d, r.e)).as_str());
    s.append(",\"hl\":");
    s.append(dec(pair_value(r.h, r.l)).as_str());
    s.append(",\"ix\":");
    s.append(dec(r.ix as u64).as_str());
    s.append(",\"iy\":");
    s.append(dec(r.iy as u64).as_str());
    s.append(",\"af_\":");
    s.append(dec(pair_value(r.a_, r.f_)).as_str());
    s.append(",\"bc_\":");
    s.append(dec(pair_value(r.b_, r.c_)).as_str());
    s.append(",\"de_\":");
    s.append(dec(pair_value(r.d_, r.e_)).as_str());
    s.append(",\"hl_\":");
    s.append(dec(pair_value(r.h_, r.l_)).as_str());
    s.append(",\"i\":");
    s.append(dec(r.i as u64).as_str());
    s.append(",\"r\":");
    s.append(dec(r.r as u64).as_str());
    s.append(",\"im\":");
    s.append(dec(r.im as u64).as_str());
    s.append(",\"memptr\":");
    s.append(dec(r.memptr as u64).as_str());
    s.append(",\"iff1\":");
    s.append(flag_text(r.iff1).as_str());
    s.append(",\"iff2\":");
    s.append(flag_text(r.iff2).as_str());
    s.append(",\"halted\":");
    s.append(flag_text(r.halted).as_str());
    s.append(",");
    s
}

fn paging_json(p: &Paging) -> (s: String)
    ensures
        s@ == paging_json_text(*p),
{
    let mut s = "\"page_7ffd\":".to_owned();
    s.append(opt_u8(p.page_7ffd).as_str());
    s.append(",\"page_1ffd\":");
    s.append(opt_u8(p.page_1ffd).as_str());
    s.append(",\"rom\":");
    s.append(dec(p.rom_bank as u64).as_str());
    s.append(",\"ram_c000\":");
    s.append(opt_u8(p.ram_c000).as_str());
    s.append(",\"screen\":");
    s.append(opt_u8(p.screen_bank).as_str());
    s.append(",");
    s
}

fn ay_json(regs: &Option<[u8; 16]>, selected: Option<u8>) -> (s: String)
    ensures
        s@ == ay_json_text(*regs, selected),
{
    match regs {
        None => "null".to_owned(),
        Some(rs) => {
            let sel = match selected {
                Some(n) => n,
                None => 0,
            };
            let mut s = "{\"selected\":".to_owned();
            s.append(dec(sel as u64).as_str());
            s.append(",\"regs\":[");
            s.append(dec_list_text(rs).as_str());
            s.append("]}");
            s
        },
    }
}

impl Inspect {
    /// Hand-rolled JSON of the snapshot.
    pub fn to_json(&self) -> (s: String)
        ensures
            s@ == inspect_json_text(*self),
    {
        let mut s = head_json(self);
        s.append(regs_json(&self.regs).as_str());
        s.append(paging_json(&self.paging).as_str());
        s.append("\"tape\":");
        match &self.tape {
            Some(t) => s.append(tape_json(t).as_str()),
            None => s.append("null"),
        }
        s.append(",\"ay\":");
        s.append(ay_json(&self.ay_regs, self.ay_selected).as_str());
        s.append(",\"beta\":");
        match &self.beta {
            Some(b) => s.append(beta_json(b).as_str()),
            None => s.append("null"),
        }
        s.append("}");
        s
    }
}

/// First text line: model and timing.
pub open spec fn timing_line(x: Inspect) -> Seq<char> {
    "model="@ + model_debug_name(x.model) + " t="@ + dec_chars(x.cpu_t as nat) + " frame_t="@ + dec_chars(
        x.frame_t as nat,
    ) + " line="@ + dec_chars(x.raster_line as nat) + " x="@ + dec_chars(x.raster_x as nat) + " INT="@ + flag(
        x.int_active,
    ) + " contend_pc="@ + dec_chars(x.contend_at_pc as nat) + "\n"@
}

/// Second text line: the main register pairs, index registers, SP and PC.
pub open spec fn main_regs_line(r: CpuRegs) -> Seq<char> {
    "AF="@ + hex_upper_chars(pair(r.a, r.f), 4) + " BC="@ + hex_upper_chars(pair(r.b, r.c), 4) + " DE="@
        + hex_upper_chars(pair(r.d, r.e), 4) + " HL="@ + hex_upper_chars(pair(r.h, r.l), 4) + " IX="@
        + hex_upper_chars(r.ix as nat, 4) + " IY="@ + hex_upper_chars(r.iy as nat, 4) + " SP="@ + hex_upper_chars(
        r.sp as nat,
        4,
    ) + " PC="@ + hex_upper_chars(r.pc as nat, 4) + "\n"@
}

/// Third text line: the alternate pairs and the control registers.
pub open spec fn alt_regs_line(r: CpuRegs) -> Seq<char> {
    "AF'="@ + hex_upper_chars(pair(r.a_, r.f_), 4) + " BC'="@ + hex_upper_chars(pair(r.b_, r.c_), 4) + " DE'="@
        + hex_upper_chars(pair(r.d_, r.e_), 4) + " HL'="@ + hex_upper_chars(pair(r.h_, r.l_), 4) + " I="@
        + hex_upper_chars(r.i as nat, 2) + " R="@ + hex_upper_chars(r.r as nat, 2) + " IM="@ + dec_chars(
        r.im as nat,
    ) + " IFF="@ + flag(r.iff1) + "/"@ + flag(r.iff2) + " HALT="@ + flag(r.halted) + " MEMPTR="@
        + hex_upper_chars(r.memptr as nat, 4) + "\n"@
}

/// Fourth text line: border, EAR, beeper and paging.
pub open spec fn io_line(x: Inspect) -> Seq<char> {
    "border="@ + dec_chars(x.border as nat) + " ear="@ + flag(x.ear) + " beeper="@ + flag(x.beeper) + " 7FFD="@
        + opt_debug_chars(x.paging.page_7ffd) + " 1FFD="@ + opt_debug_chars(x.paging.page_1ffd) + " ROM="@
        + dec_chars(x.paging.rom_bank as nat) + " C000="@ + opt_debug_chars(x.paging.ram_c000) + "\n"@
}

/// Tape text line.
pub open spec fn tape_line(t: TapeInspect) -> Seq<char> {
    "tape playing="@ + flag(t.playing) + " flash="@ + flag(t.flash_load) + " experience="@ + flag(
        t.experience_load,
    ) + " speed="@ + dec_chars(t.speed as nat) + "x block="@ + dec_chars(t.block_index as nat) + "/"@
        + dec_chars(t.block_count as nat) + "\n"@
}

/// Beta Disk text line (status bytes and recent commands in lowercase hexadecimal).
pub open spec fn beta_line(b: BetaInspect) -> Seq<char> {
    "beta paged="@ + flag(b.paged) + " track="@ + dec_chars(b.track as nat) + " sector="@ + dec_chars(
        b.sector as nat,
    ) + " status=0x"@ + hex2_chars(b.status) + " system=0x"@ + hex2_chars(b.system) + " sector_reads="@
        + dec_chars(b.sector_read_count as nat) + " cmds="@ + dec_chars(b.cmd_count as nat) + " recent=["@
        + hex2_chars(b.recent_cmds@[0]) + ", "@ + hex2_chars(b.recent_cmds@[1]) + ", "@ + hex2_chars(
        b.recent_cmds@[2],
    ) + ", "@ + hex2_chars(b.recent_cmds@[3]) + "]\n"@
}

/// The snapshot as text: four lines, then a tape and a Beta Disk line when present.
pub open spec fn inspect_text(x: Inspect) -> Seq<char> {
    timing_line(x) + main_regs_line(x.regs) + alt_regs_line(x.regs) + io_line(x) + (match x.tape {
        Some(t) => tape_line(t),
        None => Seq::empty(),
    }) + (match x.beta {
        Some(b) => beta_line(b),
        None => Seq::empty(),
    })
}

fn timing_text(x: &Inspect) -> (s: String)
    ensures
        s@ == timing_line(*x),
{
    let mut s = "model=".to_owned();
    s.append(model_debug(x.model));
    s.append(" t=");
    s.append(dec(x.cpu_t).as_str());
    s.append(" frame_t=");
    s.append(dec(x.frame_t as u64).as_str());
    s.append(" line=");
    s.append(dec(x.raster_line as u64).as_str());
    s.append(" x=");
    s.append(dec(x.raster_x as u64).as_str());
    s.append(" INT=");
    s.append(flag_text(x.int_active).as_str());
    s.append(" contend_pc=");
    s.append(dec(x.contend_at_pc as u64).as_str());
    s.append("\n");
    s
}

fn main_regs_text(r: &CpuRegs) -> (s: String)
    ensures
        s@ == main_regs_line(*r),
{
    let mut s = "AF=".to_owned();
    s.append(hex_upper(pair_value(r.a, r.f), 4).as_str());
    s.append(" BC=");
    s.append(hex_upper(pair_value(r.b, r.c), 4).as_str());
    s.append(" DE=");
    s.append(hex_upper(pair_value(r.d, r.e), 4).as_str());
    s.append(" HL=");
    s.append(hex_upper(pair_value(r.h, r.l), 4).as_str());
    s.append(" IX=");
    s.append(hex_upper(r.ix as u64, 4).as_str());
    s.append(" IY=");
    s.append(hex_upper(r.iy as u64, 4).as_str());
    s.append(" SP=");
    s.append(hex_upper(r.sp as u64, 4).as_str());
    s.append(" PC=");
    s.append(hex_upper(r.pc as u64, 4).as_str());
    s.append("\n");
    s
}

fn alt_regs_text(r: &CpuRegs) -> (s: String)
    ensures
        s@ == alt_regs_line(*r),
{
    let mut s = "AF'=".to_owned();
    s.append(hex_upper(pair_value(r.a_, r.f_), 4).as_str());
    s.append(" BC'=");
    s.append(hex_upper(pair_value(r.b_, r.c_), 4).as_str());
    s.append(" DE'=");
    s.append(hex_upper(pair_value(r.d_, r.e_), 4).as_str());
    s.append(" HL'=");
    s.append(hex_upper(pair_value(r.h_, r.l_), 4).as_str());
    s.append(" I=");
    s.append(hex_upper(r.i as u64, 2).as_str());
    s.append(" R=");
    s.append(hex_upper(r.r as u64, 2).as_str());
    s.append(" IM=");
    s.append(dec(r.im as u64).as_str());
    s.append(" IFF=");
    s.append(flag_text(r.iff1).as_str());
    s.append("/");
    s.append(flag_text(r.iff2).as_str());
    s.append(" HALT=");
    s.append(flag_text(r.halted).as_str());
    s.append(" MEMPTR=");
    s.append(hex_upper(r.memptr as u64, 4).as_str());
    s.append("\n");
    s
}

fn io_text(x: &Inspect) -> (s: String)
    ensures
        s@ == io_line(*x),
{
    let mut s = "border=".to_owned();
    s.append(dec(x.border as u64).as_str());
    s.append(" ear=");
    s.append(flag_text(x.ear).as_str());
    s.append(" beeper=");
    s.append(flag_text(x.beeper).as_str());
    s.append(" 7FFD=");
    s.append(opt_debug(x.paging.page_7ffd).as_str());
    s.append(" 1FFD=");
    s.append(opt_debug(x.paging.page_1ffd).as_str());
    s.append(" ROM=");
    s.append(dec(x.paging.rom_bank as u64).as_str());
    s.append(" C000=");
    s.append(opt_debug(x.paging.ram_c000).as_str());
    s.append("\n");
    s
}

fn tape_text(t: &TapeInspect) -> (s: String)
    ensures
        s@ == tape_line(*t),
{
    let mut s = "tape playing=".to_owned();
    s.append(flag_text(t.playing).as_str());
    s.append(" flash=");
    s.append(flag_text(t.flash_load).as_str());
    s.append(" experience=");
    s.append(flag_text(t.experience_load).as_str());
    s.append(" speed=");
    s.append(dec(t.speed as u64).as_str());
    s.append("x block=");
    s.append(dec(t.block_index as u64).as_str());
    s.append("/");
    s.append(dec(t.block_count as u64).as_str());
    s.append("\n");
    s
}

fn beta_text(b: &BetaInspect) -> (s: String)
    ensures
        s@ == beta_line(*b),
{
    let mut s = "beta paged=".to_owned();
    s.append(flag_text(b.paged).as_str());
    s.append(" track=");
    s.append(dec(b.track as u64).as_str());
    s.append(" sector=");
    s.append(dec(b.sector as u64).as_str());
    s.append(" status=0x");
    s.append(hex2(b.status).as_str());
    s.append(" system=0x");
    s.append(hex2(b.system).as_str());
    s.append(" sector_reads=");
    s.append(dec(b.sector_read_count as u64).as_str());
    s.append(" cmds=");
    s.append(dec(b.cmd_count as u64).as_str());
    s.append(" recent=[");
    s.append(hex2(b.recent_cmds[0]).as_str());
    s.append(", ");
    s.append(hex2(b.recent_cmds[1]).as_str());
    s.append(", ");
    s.append(hex2(b.recent_cmds[2]).as_str());
    s.append(", ");
    s.append(hex2(b.recent_cmds[3]).as_str());
    s.append("]\n");
    s
}

impl Inspect {
    /// The snapshot as text lines for the CLI and debugger panes.
    pub fn to_string(&self) -> (s: String)
        ensures
            s@ == inspect_text(*self),
    {
        let mut s = timing_text(self);
        s.append(main_regs_text(&self.regs).as_str());
        s.append(alt_regs_text(&self.regs).as_str());
        s.append(io_text(self).as_str());
        match &self.tape {
            Some(t) => s.append(tape_text(t).as_str()),
            None => {},
        }
        match &self.beta {
            Some(b) => s.append(beta_text(b).as_str()),
            None => {},
        }
        s
    }
}

/// Byte `b` in the ASCII column of a dump: printable ASCII as itself, else `.`.
pub open spec fn ascii_char(b: u8) -> char {
    if 0x20 <= b && b <= 0x7e { b as char } else { '.' }
}

/// Byte `k` of a dump row at `a` (wrapping at 64 KiB).
pub open spec fn row_byte(mem: Seq<u8>, a: int, k: int) -> u8 {
    mem_at(mem, (a + k) % 65536)
}

/// The first `k` hex cells of a row of `row` bytes: a byte and a space per
/// byte, three spaces past the end of the row.
pub open spec fn hex_cells(mem: Seq<u8>, a: int, row: int, k: int) -> Seq<char>
    decreases k,
{
    if k <= 0 {
        Seq::empty()
    } else {
        hex_cells(mem, a, row, k - 1) + (if k - 1 < row {
            hex_upper_chars(row_byte(mem, a, k - 1) as nat, 2) + " "@
        } else {
            "   "@
        })
    }
}

/// The ASCII column for the first `k` bytes of a row.
pub open spec fn ascii_cells(mem: Seq<u8>, a: int, k: int) -> Seq<char>
    decreases k,
{
    if k <= 0 {
        Seq::empty()
    } else {
        ascii_cells(mem, a, k - 1).push(ascii_char(row_byte(mem, a, k - 1)))
    }
}

/// One dump line: address, sixteen hex cells, the ASCII column in bars.
pub open spec fn row_text(mem: Seq<u8>, a: int, row: int) -> Seq<char> {
    hex_upper_chars(a as nat, 4) + "  "@ + hex_cells(mem, a, row, 16) + " |"@ + ascii_cells(mem, a, row) + "|\n"@
}

/// Lines for `remaining` bytes from `a`, sixteen per line.
pub open spec fn dump_rows(mem: Seq<u8>, a: int, remaining: int) -> Seq<char>
    decreases remaining,
{
    if remaining <= 0 {
        Seq::empty()
    } else {
        let row = if remaining < 16 { remaining } else { 16 };
        row_text(mem, a, row) + dump_rows(mem, (a + row) % 65536, remaining - row)
    }
}

/// Hex dump of `len` bytes (clamped to `1..=4096`) from `addr`.
pub open spec fn hexdump_text(mem: Seq<u8>, addr: u16, len: u16) -> Seq<char> {
    let n = if len < 1 { 1int } else if len > 4096 { 4096int } else { len as int };
    dump_rows(mem, addr as int, n)
}

fn dump_row(mem: &[u8], a: u16, row: u16) -> (s: String)
    requires
        1 <= row <= 16,
    ensures
        s@ == row_text(mem@, a as int, row as int),
{
    let mut s = hex_upper(a as u64, 4);
    s.append("  ");
    let ghost head = s@;
    let mut i: u16 = 0;
    while i < 16
        invariant
            i <= 16,
            1 <= row <= 16,
            s@ == head + hex_cells(mem@, a as int, row as int, i as int),
        decreases 16 - i,
    {
        if i < row {
            let b = read_at(mem, a.wrapping_add(i));
            proof {
                assert(a.wrapping_add(i) as int == (a as int + i as int) % 65536);
            }
            s.append(hex_upper(b as u64, 2).as_str());
            s.append(" ");
        } else {
            s.append("   ");
        }
        i += 1;
    }
    s.append(" |");
    let ghost mid = s@;
    let mut k: u16 = 0;
    while k < row
        invariant
            k <= row <= 16,
            s@ == mid + ascii_cells(mem@, a as int, k as int),
        decreases row - k,
    {
        let b = read_at(mem, a.wrapping_add(k));
        proof {
            assert(a.wrapping_add(k) as int == (a as int + k as int) % 65536);
        }
        let c = if 0x20 <= b && b <= 0x7e { b as char } else { '.' };
        push_char(&mut s, c);
        k += 1;
    }
    s.append("|\n");
    s
}

/// Hex dump of `len` bytes (clamped to `1..=4096`) of the address space
/// `mem`, from `addr`: sixteen bytes per line with an ASCII column.
pub fn hexdump(mem: &[u8], addr: u16, len: u16) -> (s: String)
    ensures
        s@ == hexdump_text(mem@, addr, len),
{
    let len = if len < 1 { 1 } else if len > 4096 { 4096 } else { len };
    let mut out = String::new();
    let mut a = addr;
    let mut remaining = len;
    while remaining > 0
        invariant
            remaining <= 4096,
            out@ + dump_rows(mem@, a as int, remaining as int) == hexdump_text(mem@, addr, len),
        decreases remaining,
    {
        let row = if remaining < 16 { remaining } else { 16 };
        let line = dump_row(mem, a, row);
        let ghost before = out@;
        out.append(line.as_str());
        proof {
            let rest = dump_rows(mem@, (a as int + row as int) % 65536, remaining - row);
            assert(dump_rows(mem@, a as int, remaining as int) == line@ + rest);
            assert(out@ + rest =~= before + (line@ + rest));
            assert(a.wrapping_add(row) as int == (a as int + row as int) % 65536);
        }
        a = a.wrapping_add(row);
        remaining -= row;
    }
    assert(out@ + Seq::<char>::empty() =~= out@);
    out
}

/// The `min(n, 32)` little-endian words on the stack from `sp` upwards.
pub open spec fn stack_words_spec(mem: Seq<u8>, sp: u16, n: usize) -> Seq<u16> {
    let k = if n < 32 { n as int } else { 32 };
    Seq::new(k as nat, |i: int| mem_word(mem, sp as int + 2 * i) as u16)
}

/// Words on the stack (at most 32) of the address space `mem`.
pub fn stack_words(mem: &[u8], sp: u16, n: usize) -> (w: Vec<u16>)
    ensures
        w@ == stack_words_spec(mem@, sp, n),
{
    let k: usize = if n < 32 { n } else { 32 };
    let mut w: Vec<u16> = Vec::new();
    let mut i: usize = 0;
    while i < k
        invariant
            k <= 32,
            k == (if n < 32 { n as int } else { 32 }),
            i <= k,
            w@ =~= stack_words_spec(mem@, sp, n).take(i as int),
        decreases k - i,
    {
        let a = sp.wrapping_add((i * 2) as u16);
        let lo = read_at(mem, a);
        let hi = read_at(mem, a.wrapping_add(1));
        proof {
            assert(a as int == (sp as int + 2 * i) % 65536);
            assert((a as int + 1) % 65536 == (sp as int + 2 * i + 1) % 65536);
        }
        w.push(lo as u16 + (hi as u16) * 256);
        i += 1;
    }
    w
}

} // verus!

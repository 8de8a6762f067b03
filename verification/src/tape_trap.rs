//! The LD-BYTES flash-load trap as the CPU sees it: registers and a view of
//! the 64 KiB address space in; registers, the deck and the memory writes out.

use vstd::prelude::*;
use crate::machine::TapeDeck;
use crate::tape_bay::TapeBay;
use crate::tap::{
    evaluate_ld_bytes_trap, flash_load_block, flash_writes, is_ld_bytes_trap_pc, ld_bytes_trap_spec,
    mem_at, read_at, trap_scan, TapPlayer, TapeTrapResult, TrapScan,
};

verus! {

/// Carry bit of the Z80 `F` register.
pub const FLAG_C: u8 = 0x01;

/// The CPU registers that the trap reads and writes. After the ROM's
/// `EX AF,AF'`, `A'` holds the expected flag byte and the carry of `F'`
/// selects load (set) or verify (clear).
#[derive(Clone, Copy, Debug, PartialEq, Eq, Structural)]
pub struct TrapRegs {
    pub pc: u16,
    pub sp: u16,
    pub ix: u16,
    pub de: u16,
    pub f: u8,
    pub a_alt: u8,
    pub f_alt: u8,
}

/// Little-endian word of two bytes.
pub open spec fn word(lo: u8, hi: u8) -> u16 {
    (lo as int + 256 * hi as int) as u16
}

/// Little-endian word stored at `a` (wrapping at 64 KiB).
pub open spec fn mem_word(mem: Seq<u8>, a: int) -> int {
    mem_at(mem, a % 65536) as int + 256 * mem_at(mem, (a + 1) % 65536) as int
}

/// Registers after returning from the trapped routine to `hi:lo`: the return
/// address is popped, carry is set (and `DE` cleared) on success, clear on failure.
pub open spec fn returned(r: TrapRegs, lo: u8, hi: u8, success: bool) -> TrapRegs {
    TrapRegs {
        pc: word(lo, hi),
        sp: ((r.sp as int + 2) % 65536) as u16,
        de: if success { 0 } else { r.de },
        f: if success { r.f | FLAG_C } else { r.f & 0xFE },
        ..r
    }
}

/// Return from the trapped LD-BYTES call to `hi:lo` with the carry telling success.
pub fn ret_from_tape_trap(regs: &mut TrapRegs, lo: u8, hi: u8, success: bool)
    ensures
        *final(regs) == returned(*old(regs), lo, hi, success),
{
    if success {
        regs.f = regs.f | FLAG_C;
        regs.de = 0;
    } else {
        regs.f = regs.f & 0xFE;
    }
    regs.sp = regs.sp.wrapping_add(2);
    regs.pc = lo as u16 + (hi as u16) * 256;
}


/// The load/verify carry that the ROM left in `F'`.
pub open spec fn load_requested(r: TrapRegs) -> bool {
    r.f_alt & FLAG_C != 0
}

/// The return address on top of the stack.
pub open spec fn ret_lo(r: TrapRegs, mem: Seq<u8>) -> u8 {
    mem_at(mem, r.sp as int)
}

pub open spec fn ret_hi(r: TrapRegs, mem: Seq<u8>) -> u8 {
    mem_at(mem, (r.sp as int + 1) % 65536)
}

/// What the trap does to a playing TAP deck `p`, leaving `q`, when the ROM
/// asks for a block with flag `flag` and `len` data bytes; and the registers
/// `r2` and memory writes `w` it leaves, from registers `r` and memory `mem`.
pub open spec fn trap_effect(
    p: TapPlayer,
    q: TapPlayer,
    r: TrapRegs,
    mem: Seq<u8>,
    r2: TrapRegs,
    w: Seq<(u16, u8)>,
) -> bool {
    let lo = ret_lo(r, mem);
    let hi = ret_hi(r, mem);
    match trap_scan(p.blocks(), p.block as int, r.a_alt, r.de) {
        TrapScan::NoBlock => {
            &&& q.at_block_start(p.block as int)
            &&& q.playing
            &&& r2 == returned(r, lo, hi, false)
            &&& w.len() == 0
        },
        TrapScan::Mismatch(b) => {
            &&& q.playing
            &&& (b == p.block ==> q == p)
            &&& (b != p.block ==> q.at_block_start(b))
            &&& r2 == returned(r, lo, hi, false)
            &&& w.len() == 0
        },
        TrapScan::Loaded(b) => {
            &&& q.at_block_start(b + 1)
            &&& q.playing == (b + 1 < p.image.blocks@.len())
            &&& r2 == returned(TrapRegs { ix: ((r.ix as int + r.de as int) % 65536) as u16, ..r }, lo, hi, true)
            &&& w == (if load_requested(r) { flash_writes(p.blocks()[b], r.ix) } else { Seq::empty() })
        },
    }
}

/// A block that the trap search finds lies in the tape, at or after `b`.
pub proof fn lemma_trap_scan_range(blocks: Seq<Seq<u8>>, b: int, flag: u8, len: u16)
    ensures
        trap_scan(blocks, b, flag, len) matches TrapScan::Loaded(k) ==> b <= k < blocks.len(),
        trap_scan(blocks, b, flag, len) matches TrapScan::Mismatch(k) ==> b <= k < blocks.len(),
    decreases blocks.len() - b,
{
    if 0 <= b < blocks.len() {
        lemma_trap_scan_range(blocks, b + 1, flag, len);
    }
}

/// One flash-load attempt at the current instruction: when `pc` is the
/// LD-BYTES trap and a playing TAP deck is inserted, the block is taken from
/// the deck and the routine returns at once. Returns whether the trap handled
/// the instruction, and the memory writes to apply in order (`mem` is the
/// address space before them).
pub fn try_flash_load(regs: &mut TrapRegs, mem: &[u8], tape: &mut Option<TapeDeck>) -> (out: (bool, Vec<(u16, u8)>))
    requires
        *old(tape) matches Some(d) ==> d.wf(),
    ensures
        *final(tape) matches Some(d) ==> d.wf(),
        (match *old(tape) {
            Some(TapeDeck::Tap(p)) => ld_bytes_trap_spec(old(regs).pc, mem@) && p.playing,
            _ => false,
        }) == out.0,
        !out.0 ==> *final(regs) == *old(regs) && *final(tape) == *old(tape) && out.1@.len() == 0,
        out.0 ==> (match (*old(tape), *final(tape)) {
            (Some(TapeDeck::Tap(p)), Some(TapeDeck::Tap(q))) => q.same_tape(&p) && trap_effect(
                p,
                q,
                *old(regs),
                mem@,
                *final(regs),
                out.1@,
            ),
            _ => false,
        }),
{
    if !is_ld_bytes_trap_pc(regs.pc, mem) {
        return (false, Vec::new());
    }
    match tape {
        Some(TapeDeck::Tap(player)) => {
            let flag = regs.a_alt;
            let load = regs.f_alt & FLAG_C != 0;
            let addr = regs.ix;
            let len = regs.de;
            let sp = regs.sp;
            let lo = read_at(mem, sp);
            let hi = read_at(mem, sp.wrapping_add(1));
            proof {
                lemma_trap_scan_range(player.blocks(), player.block as int, flag, len);
            }
            let result = evaluate_ld_bytes_trap(regs.pc, flag, load, addr, len, player);
            match result {
                TapeTrapResult::Ignored => (false, Vec::new()),
                TapeTrapResult::Success { addr: dest, len: n } => {
                    let b = player.block - 1;
                    let writes = if load {
                        flash_load_block(player.image.blocks[b].as_slice(), dest)
                    } else {
                        Vec::new()
                    };
                    regs.ix = dest.wrapping_add(n);
                    ret_from_tape_trap(regs, lo, hi, true);
                    (true, writes)
                },
                TapeTrapResult::Failure => {
                    ret_from_tape_trap(regs, lo, hi, false);
                    (true, Vec::new())
                },
            }
        },
        _ => (false, Vec::new()),
    }
}

/// Tape inserted but paused while the CPU sits at LD-BYTES: hold the PC there
/// so that Play can still flash-load or EAR-load.
pub fn hold_ld_bytes_until_play(pc: u16, tape: &Option<TapeDeck>, mem: &[u8]) -> (r: bool)
    ensures
        r == ((tape matches Some(d) && !d.playing_spec()) && ld_bytes_trap_spec(pc, mem@)),
{
    match tape {
        Some(d) => !d.playing() && is_ld_bytes_trap_pc(pc, mem),
        None => false,
    }
}

/// Spectrum LD-BYTES entry that games `CALL` directly.
pub const SPECTRUM_LD_BYTES: u16 = 0x0556;

/// Timex TS2068: a `CALL $0556` from RAM lands in home-ROM code that is not
/// the Spectrum loader. When `pc` is there without the Spectrum prologue and
/// the return address lies in RAM, the EX-ROM chunk 0' must be paged in: the
/// new values of the SCLD ports `FF` and `F4` are returned (bit 7 and bit 0
/// set), and the caller continues at the EX-ROM loader.
pub open spec fn timex_redirect_spec(timex_2068: bool, pc: u16, sp: u16, mem: Seq<u8>) -> bool {
    &&& timex_2068
    &&& pc == SPECTRUM_LD_BYTES
    &&& !crate::tap::prologue_at(mem, SPECTRUM_LD_BYTES as int)
    &&& mem_word(mem, sp as int) >= 0x4000
}

pub fn timex_ld_bytes_redirect(
    timex_2068: bool,
    pc: u16,
    sp: u16,
    port_ff: u8,
    port_f4: u8,
    mem: &[u8],
) -> (r: Option<(u8, u8)>)
    ensures
        r == (if timex_redirect_spec(timex_2068, pc, sp, mem@) {
            Some((port_ff | 0x80, port_f4 | 0x01))
        } else {
            None
        }),
{
    if !timex_2068 || pc != SPECTRUM_LD_BYTES {
        return None;
    }
    if read_at(mem, 0x0556) == 0x14 && read_at(mem, 0x0557) == 0x08 && read_at(mem, 0x0558) == 0x15
        && read_at(mem, 0x0559) == 0xF3 {
        return None;
    }
    let lo = read_at(mem, sp);
    let hi = read_at(mem, sp.wrapping_add(1));
    let ret = lo as u16 + (hi as u16) * 256;
    if ret < 0x4000 {
        return None;
    }
    Some((port_ff | 0x80, port_f4 | 0x01))
}

/// Stack words of a 48 BASIC flash-load at `CLEAR 32767` with `SP=$7FE6`
/// (address, value), which the +2A menu loader leaves differently.
pub open spec fn plus2a_stack_words() -> Seq<(u16, u16)> {
    seq![
        (0x7FCCu16, 0x02DBu16),
        (0x7FCE, 0x3873),
        (0x7FD0, 0x5DB8),
        (0x7FD2, 0x004D),
        (0x7FD4, 0x52C7),
        (0x7FD6, 0x0039),
        (0x7FD8, 0x52C6),
        (0x7FDA, 0x020C),
        (0x7FDC, 0x0E5C),
        (0x7FF2, 0x0009),
        (0x7FF6, 0x1C10),
        (0x7FF8, 0x1B52),
        (0x7FFA, 0x1B76),
        (0x7FFC, 0x1303),
    ]
}

fn stack_words() -> (v: Vec<(u16, u16)>)
    ensures
        v@ == plus2a_stack_words(),
{
    let v = vec![
        (0x7FCCu16, 0x02DBu16),
        (0x7FCE, 0x3873),
        (0x7FD0, 0x5DB8),
        (0x7FD2, 0x004D),
        (0x7FD4, 0x52C7),
        (0x7FD6, 0x0039),
        (0x7FD8, 0x52C6),
        (0x7FDA, 0x020C),
        (0x7FDC, 0x0E5C),
        (0x7FF2, 0x0009),
        (0x7FF6, 0x1C10),
        (0x7FF8, 0x1B52),
        (0x7FFA, 0x1B76),
        (0x7FFC, 0x1303),
    ];
    assert(v@ =~= plus2a_stack_words());
    v
}

/// Byte writes of little-endian words, in order.
pub open spec fn word_writes(words: Seq<(u16, u16)>) -> Seq<(u16, u8)>
    decreases words.len(),
{
    if words.len() == 0 {
        Seq::empty()
    } else {
        let (a, v) = words.last();
        word_writes(words.drop_last()) + seq![(a, (v % 256) as u8), (((a as int + 1) % 65536) as u16, (v / 256) as u8)]
    }
}

/// The +2A menu loader with `CLEAR 32767` leaves `0x0038` where the 48K
/// calculator expects the `0xFFFF` end marker, and editor return addresses
/// in place of MAIN. The repair applies when `SP` is in the `CLEAR 32767`
/// window, `PC` is still in ROM, RAMTOP is `0x7FFF`, the marker word at
/// `$7FEC` is `0x0038`, and `$7FFC` does not hold the repaired MAIN return.
pub open spec fn plus2a_repair_applies(sp: u16, pc: u16, mem: Seq<u8>) -> bool {
    &&& 0x7FD0 <= sp <= 0x7FF0
    &&& pc < 0x4000
    &&& mem_word(mem, 0x5CB2) == 0x7FFF
    &&& mem_word(mem, 0x7FEC) == 0x0038
    &&& mem_word(mem, 0x7FFC) != 0x1303
}

/// The writes of the repair: the end marker, then the 48 BASIC stack words.
pub open spec fn plus2a_repair_writes(sp: u16, pc: u16, mem: Seq<u8>) -> Seq<(u16, u8)> {
    if plus2a_repair_applies(sp, pc, mem) {
        seq![(0x7FECu16, 0xFFu8), (0x7FEDu16, 0xFFu8)] + word_writes(plus2a_stack_words())
    } else {
        Seq::empty()
    }
}

fn word_at(mem: &[u8], a: u16) -> (r: u16)
    ensures
        r as int == mem_word(mem@, a as int),
{
    let lo = read_at(mem, a);
    let hi = read_at(mem, a.wrapping_add(1));
    lo as u16 + (hi as u16) * 256
}

/// Repair the stack after a +2A menu-loader flash-load (no disk interface);
/// `mem` is the address space after the flash-load's own writes.
pub fn plus2a_repair_menu_loader_stack(sp: u16, pc: u16, mem: &[u8]) -> (writes: Vec<(u16, u8)>)
    ensures
        writes@ == plus2a_repair_writes(sp, pc, mem@),
{
    let mut writes: Vec<(u16, u8)> = Vec::new();
    if !(0x7FD0 <= sp && sp <= 0x7FF0) || pc >= 0x4000 {
        return writes;
    }
    if word_at(mem, 0x5CB2) != 0x7FFF || word_at(mem, 0x7FEC) != 0x0038 || word_at(mem, 0x7FFC) == 0x1303 {
        return writes;
    }
    writes.push((0x7FEC, 0xFF));
    writes.push((0x7FED, 0xFF));
    let words = stack_words();
    let ghost head = writes@;
    let mut i: usize = 0;
    while i < words.len()
        invariant
            i <= words@.len(),
            words@ == plus2a_stack_words(),
            head == seq![(0x7FECu16, 0xFFu8), (0x7FEDu16, 0xFFu8)],
            writes@ == head + word_writes(words@.take(i as int)),
        decreases words@.len() - i,
    {
        let (a, v) = words[i];
        proof {
            assert(words@.take(i + 1).drop_last() =~= words@.take(i as int));
            assert(a as int + 1 <= 0xFFFF);
        }
        writes.push((a, (v % 256) as u8));
        writes.push((a.wrapping_add(1), (v / 256) as u8));
        proof {
            assert(writes@ =~= head + word_writes(words@.take(i + 1)));
        }
        i += 1;
    }
    proof {
        assert(words@.take(words@.len() as int) =~= words@);
    }
    writes
}

/// T-states that pass while the PC is held at LD-BYTES.
pub const HOLD_T: u32 = 4;

/// What the tape does before the next instruction.
pub enum TapeGate {
    /// A paused deck sits under LD-BYTES: the PC is held while [`HOLD_T`]
    /// T-states pass.
    Hold,
    /// The flash-load trap returned from LD-BYTES; apply these writes in order.
    Loaded(Vec<(u16, u8)>),
    /// The tape does not intervene: the interrupt or the instruction runs.
    Run,
}

/// The tape's part of a machine step, before any interrupt or instruction:
/// holding at LD-BYTES while the deck is paused comes first, then, when
/// flash-load is enabled, the trap. `mem` is the address space.
pub fn tape_gate(bay: &mut TapeBay, regs: &mut TrapRegs, mem: &[u8]) -> (r: TapeGate)
    requires
        old(bay).wf(),
    ensures
        final(bay).wf(),
        final(bay).opts == old(bay).opts,
        ({
            let hold = (old(bay).tape matches Some(d) && !d.playing_spec()) && ld_bytes_trap_spec(old(regs).pc, mem@);
            let trap = old(bay).opts.flash_load && ld_bytes_trap_spec(old(regs).pc, mem@) && (old(bay).tape matches Some(
                TapeDeck::Tap(_),
            ));
            &&& hold ==> r is Hold
            &&& !hold && !trap ==> r is Run
            &&& !(r is Loaded) ==> final(bay).tape == old(bay).tape && *final(regs) == *old(regs)
            &&& !hold && trap ==> match (r, old(bay).tape, final(bay).tape) {
                (TapeGate::Loaded(w), Some(TapeDeck::Tap(p)), Some(TapeDeck::Tap(q))) => q.same_tape(&p) && trap_effect(
                    p,
                    q,
                    *old(regs),
                    mem@,
                    *final(regs),
                    w@,
                ),
                _ => false,
            }
        }),
{
    if hold_ld_bytes_until_play(regs.pc, &bay.tape, mem) {
        return TapeGate::Hold;
    }
    if bay.opts.flash_load {
        let (handled, writes) = try_flash_load(regs, mem, &mut bay.tape);
        if handled {
            return TapeGate::Loaded(writes);
        }
    }
    TapeGate::Run
}

} // verus!

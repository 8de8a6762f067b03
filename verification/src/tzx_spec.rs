//! What a TZX image expands to: the EAR pulse schedule and logical block
//! starts produced by walking its blocks, including loops, jumps, calls and
//! selections.

use vstd::prelude::*;
use crate::ear::{data_durs, emit, pause, repeat, EarState, ear};
use crate::tap::{le16, pilot_count, u8_bit, BIT0_T, BIT1_T, PAUSE_T, PILOT_PULSE_T, SYNC1_T, SYNC2_T};
use crate::tzx_frame::{le24, le32, s16};

verus! {

/// Cap on the expanded EAR pulse count (loop expansion guard).
pub const MAX_SCHEDULED_PULSES: usize = 16_777_216;
/// Cap on logical block starts.
pub const MAX_LOGICAL_BLOCKS: usize = 1_048_576;
/// Cap on Loop End replay jumps.
pub const MAX_LOOP_REPLAYS: usize = 1_048_576;
/// Cap on Jump / Call / Return / Select transfers.
pub const MAX_CONTROL_TRANSFERS: usize = 1_048_576;

/// An open Call sequence.
pub struct CallSpec {
    /// Block index of the Call sequence (relative offsets are from this block).
    pub call_bi: int,
    /// Block index to resume at after the last call returns.
    pub return_bi: int,
    /// Relative offsets of the called blocks.
    pub offsets: Seq<i16>,
    /// Index of the next call to run after the current one returns.
    pub next_call: int,
}

/// Expansion state between blocks.
pub struct Exp {
    pub pulses: Seq<(u32, bool)>,
    pub level: bool,
    pub force_low: bool,
    /// Pulse index at which each logical block starts.
    pub starts: Seq<usize>,
    /// Open loops: (first enclosed block, remaining plays).
    pub loops: Seq<(usize, u16)>,
    pub calls: Seq<CallSpec>,
    /// Nesting depth of skipped (zero-repetition) loops.
    pub skip: int,
    pub replays: int,
    pub transfers: int,
}

/// Initial expansion state: nothing emitted, the first edge forced low.
pub open spec fn exp_init() -> Exp {
    Exp {
        pulses: Seq::empty(),
        level: false,
        force_low: true,
        starts: Seq::empty(),
        loops: Seq::empty(),
        calls: Seq::empty(),
        skip: 0,
        replays: 0,
        transfers: 0,
    }
}

pub open spec fn es(st: Exp) -> EarState {
    ear(st.pulses, st.level, st.force_low)
}

pub open spec fn with_es(st: Exp, e: EarState) -> Exp {
    Exp { pulses: e.pulses, level: e.level, force_low: e.force_low, ..st }
}

/// Milliseconds to T-states at 3.5 MHz.
pub open spec fn ms_to_t(ms: int) -> u32 {
    (ms * 3500) as u32
}

/// Pulses a trailing pause adds.
pub open spec fn pause_pulses(t: u32) -> int {
    if t > 0 { 1 } else { 0 }
}

/// `used_bits` of the last byte; `0` or more than 8 mean a full byte.
pub open spec fn used_bits_norm(ub: u8) -> int {
    if ub == 0 || ub > 8 { 8 } else { ub as int }
}

/// Pulses of a pure-data payload and its pause.
pub open spec fn pure_data_est(len: int, ub: u8, pause_ms: int) -> int {
    (if len == 0 { 0 } else { (len - 1) * 16 + 2 * used_bits_norm(ub) }) + pause_pulses(ms_to_t(pause_ms))
}

/// Start a logical block that will add `add` pulses; fails past the caps.
pub open spec fn open_block(st: Exp, add: int) -> Option<Exp> {
    if st.starts.len() >= MAX_LOGICAL_BLOCKS {
        None
    } else if st.pulses.len() + add > MAX_SCHEDULED_PULSES {
        None
    } else {
        Some(Exp { starts: st.starts.push(st.pulses.len() as usize), ..st })
    }
}

/// Pulse budget check after a block.
pub open spec fn close_block(st: Exp) -> Option<Exp> {
    if st.pulses.len() > MAX_SCHEDULED_PULSES { None } else { Some(st) }
}

pub open spec fn next(o: Option<Exp>, nb: int) -> Option<(Exp, int)> {
    match o {
        Some(s) => Some((s, nb)),
        None => None,
    }
}

/// Data bits followed by a trailing pause.
pub open spec fn pure_data(e: EarState, block: Seq<u8>, zero: u32, one: u32, ub: u8, pause_ms: int) -> EarState {
    pause(emit(e, data_durs(block, zero, one, used_bits_norm(ub))), ms_to_t(pause_ms))
}

/// Standard-speed block `0x10` whose body starts at `i`.
pub open spec fn std_block(st: Exp, data: Seq<u8>, i: int) -> Option<Exp> {
    let pause_ms = le16(data, i);
    let len = le16(data, i + 2);
    let block = data.subrange(i + 4, i + 4 + len);
    let add = pilot_count(block) + 2 + 16 * len + 1;
    let t = if pause_ms == 0 { PAUSE_T } else { ms_to_t(pause_ms) };
    match open_block(st, add) {
        None => None,
        Some(s) => close_block(with_es(s, pause(emit(es(s), repeat(PILOT_PULSE_T, pilot_count(block))
            + seq![SYNC1_T, SYNC2_T] + data_durs(block, BIT0_T, BIT1_T, 8)), t))),
    }
}

pub open spec fn step_10(data: Seq<u8>, st: Exp, bi: int, i: int) -> Option<(Exp, int)> {
    if i + 4 > data.len() || i + 4 + le16(data, i + 2) > data.len() {
        None
    } else if st.skip != 0 {
        Some((st, bi + 1))
    } else {
        next(std_block(st, data, i), bi + 1)
    }
}

/// Turbo block `0x11` whose body starts at `i`.
pub open spec fn turbo_block(st: Exp, data: Seq<u8>, i: int) -> Option<Exp> {
    let pilot = le16(data, i) as u32;
    let sync1 = le16(data, i + 2) as u32;
    let sync2 = le16(data, i + 4) as u32;
    let zero = le16(data, i + 6) as u32;
    let one = le16(data, i + 8) as u32;
    let pp = le16(data, i + 10);
    let ub = data[i + 12];
    let pause_ms = le16(data, i + 13);
    let len = le24(data, i + 15);
    let block = data.subrange(i + 18, i + 18 + len);
    match open_block(st, pp + 2 + pure_data_est(len, ub, pause_ms)) {
        None => None,
        Some(s) => close_block(with_es(s, pure_data(emit(es(s), repeat(pilot, pp) + seq![sync1, sync2]), block, zero, one, ub, pause_ms))),
    }
}

pub open spec fn step_11(data: Seq<u8>, st: Exp, bi: int, i: int) -> Option<(Exp, int)> {
    if i + 18 > data.len() || i + 18 + le24(data, i + 15) > data.len() {
        None
    } else if st.skip != 0 {
        Some((st, bi + 1))
    } else {
        next(turbo_block(st, data, i), bi + 1)
    }
}

pub open spec fn step_12(data: Seq<u8>, st: Exp, bi: int, i: int) -> Option<(Exp, int)> {
    if i + 4 > data.len() {
        None
    } else if st.skip != 0 {
        Some((st, bi + 1))
    } else {
        let len = le16(data, i) as u32;
        let count = le16(data, i + 2);
        next(match open_block(st, count) {
            None => None,
            Some(s) => close_block(with_es(s, emit(es(s), repeat(len, count)))),
        }, bi + 1)
    }
}

/// Pulse lengths listed by a `0x13` block whose count byte is at `i`.
pub open spec fn pulse_list(data: Seq<u8>, i: int, n: int) -> Seq<u32> {
    Seq::new(n as nat, |k: int| le16(data, i + 1 + 2 * k) as u32)
}

pub open spec fn step_13(data: Seq<u8>, st: Exp, bi: int, i: int) -> Option<(Exp, int)> {
    if i >= data.len() || i + 1 + 2 * (data[i] as int) > data.len() {
        None
    } else if st.skip != 0 {
        Some((st, bi + 1))
    } else {
        let n = data[i] as int;
        next(match open_block(st, n) {
            None => None,
            Some(s) => close_block(with_es(s, emit(es(s), pulse_list(data, i, n)))),
        }, bi + 1)
    }
}

/// Pure data block `0x14` whose body starts at `i`.
pub open spec fn pure_block(st: Exp, data: Seq<u8>, i: int) -> Option<Exp> {
    let zero = le16(data, i) as u32;
    let one = le16(data, i + 2) as u32;
    let ub = data[i + 4];
    let pause_ms = le16(data, i + 5);
    let len = le24(data, i + 7);
    let block = data.subrange(i + 10, i + 10 + len);
    match open_block(st, pure_data_est(len, ub, pause_ms)) {
        None => None,
        Some(s) => close_block(with_es(s, pure_data(es(s), block, zero, one, ub, pause_ms))),
    }
}

pub open spec fn step_14(data: Seq<u8>, st: Exp, bi: int, i: int) -> Option<(Exp, int)> {
    if i + 10 > data.len() || i + 10 + le24(data, i + 7) > data.len() {
        None
    } else if st.skip != 0 {
        Some((st, bi + 1))
    } else {
        next(pure_block(st, data, i), bi + 1)
    }
}

pub open spec fn step_20(data: Seq<u8>, st: Exp, bi: int, i: int) -> Option<(Exp, int)> {
    if i + 2 > data.len() {
        None
    } else if st.skip != 0 {
        Some((st, bi + 1))
    } else {
        let t = ms_to_t(le16(data, i));
        if st.starts.len() >= MAX_LOGICAL_BLOCKS {
            None
        } else if t > 0 && st.pulses.len() + 1 > MAX_SCHEDULED_PULSES {
            None
        } else {
            let s = Exp { starts: st.starts.push(st.pulses.len() as usize), ..st };
            next(close_block(with_es(s, pause(es(s), t))), bi + 1)
        }
    }
}

/// Blocks that carry no pulses; `need` is how many body bytes must exist.
pub open spec fn step_skip(data: Seq<u8>, st: Exp, bi: int, i: int, need: int) -> Option<(Exp, int)> {
    if i + need > data.len() { None } else { Some((st, bi + 1)) }
}

pub open spec fn step_2b(data: Seq<u8>, st: Exp, bi: int, i: int) -> Option<(Exp, int)> {
    if i + 5 > data.len() {
        None
    } else if st.skip != 0 {
        Some((st, bi + 1))
    } else {
        Some((Exp { force_low: false, level: data[i + 4] != 0, ..st }, bi + 1))
    }
}

/// Target of a relative jump of `rel` blocks from block `from` (`count` = end of tape).
pub open spec fn resolve(from: int, rel: int, count: int) -> Option<int> {
    if rel == 0 || from > 0x7fff_ffff || from + rel > 0x7fff_ffff || from + rel < 0 || from + rel > count {
        None
    } else {
        Some(from + rel)
    }
}

/// Count one control-flow transfer.
pub open spec fn bump(st: Exp) -> Option<Exp> {
    if st.transfers + 1 > MAX_CONTROL_TRANSFERS { None } else { Some(Exp { transfers: st.transfers + 1, ..st }) }
}

pub open spec fn jump(st: Exp, from: int, rel: int, count: int) -> Option<(Exp, int)> {
    match bump(st) {
        None => None,
        Some(s) => match resolve(from, rel, count) {
            None => None,
            Some(t) => Some((s, t)),
        },
    }
}

pub open spec fn step_23(data: Seq<u8>, st: Exp, bi: int, i: int, count: int) -> Option<(Exp, int)> {
    if i + 2 > data.len() {
        None
    } else if st.skip != 0 {
        Some((st, bi + 1))
    } else {
        jump(st, bi, s16(data, i), count)
    }
}

pub open spec fn step_24(data: Seq<u8>, st: Exp, bi: int, i: int) -> Option<(Exp, int)> {
    if i + 2 > data.len() {
        None
    } else if st.skip > 0 {
        if st.skip + 1 > usize::MAX { None } else { Some((Exp { skip: st.skip + 1, ..st }, bi + 1)) }
    } else if le16(data, i) == 0 {
        Some((Exp { skip: 1, ..st }, bi + 1))
    } else {
        Some((Exp { loops: st.loops.push(((bi + 1) as usize, le16(data, i) as u16)), ..st }, bi + 1))
    }
}

pub open spec fn step_25(st: Exp, bi: int) -> Option<(Exp, int)> {
    if st.skip > 0 {
        Some((Exp { skip: st.skip - 1, ..st }, bi + 1))
    } else if st.loops.len() == 0 {
        None
    } else {
        let (restart, remaining) = st.loops.last();
        let rem = if remaining > 0 { (remaining - 1) as u16 } else { 0u16 };
        if rem > 0 {
            if st.pulses.len() > MAX_SCHEDULED_PULSES || st.replays + 1 > MAX_LOOP_REPLAYS {
                None
            } else {
                Some((Exp {
                    loops: st.loops.update(st.loops.len() - 1, (restart, rem)),
                    replays: st.replays + 1,
                    ..st
                }, restart as int))
            }
        } else {
            Some((Exp { loops: st.loops.drop_last(), ..st }, bi + 1))
        }
    }
}

/// Relative offsets listed by a Call sequence whose count word is at `i`.
pub open spec fn call_offsets(data: Seq<u8>, i: int, n: int) -> Seq<i16> {
    Seq::new(n as nat, |k: int| s16(data, i + 2 + 2 * k) as i16)
}

pub open spec fn step_26(data: Seq<u8>, st: Exp, bi: int, i: int, count: int) -> Option<(Exp, int)> {
    if i + 2 > data.len() || i + 2 + 2 * le16(data, i) > data.len() {
        None
    } else if st.skip != 0 || le16(data, i) == 0 {
        Some((st, bi + 1))
    } else if st.calls.len() > 0 {
        None
    } else {
        let offs = call_offsets(data, i, le16(data, i));
        match jump(st, bi, offs[0] as int, count) {
            None => None,
            Some((s, t)) => Some((Exp {
                calls: s.calls.push(CallSpec { call_bi: bi, return_bi: bi + 1, offsets: offs, next_call: 1 }),
                ..s
            }, t)),
        }
    }
}

pub open spec fn step_27(st: Exp, bi: int, count: int) -> Option<(Exp, int)> {
    if st.skip != 0 {
        Some((st, bi + 1))
    } else if st.calls.len() == 0 {
        None
    } else {
        let f = st.calls.last();
        if f.next_call < f.offsets.len() {
            match jump(st, f.call_bi, f.offsets[f.next_call] as int, count) {
                None => None,
                Some((s, t)) => Some((Exp {
                    calls: s.calls.update(s.calls.len() - 1, CallSpec { next_call: f.next_call + 1, ..f }),
                    ..s
                }, t)),
            }
        } else {
            match bump(st) {
                None => None,
                Some(s) => Some((Exp { calls: s.calls.drop_last(), ..s }, f.return_bi)),
            }
        }
    }
}

pub open spec fn step_28(data: Seq<u8>, st: Exp, bi: int, i: int, count: int) -> Option<(Exp, int)> {
    if i + 2 > data.len() || i + 2 + le16(data, i) > data.len() {
        None
    } else if st.skip != 0 || le16(data, i) < 3 || data[i + 2] == 0 {
        Some((st, bi + 1))
    } else {
        jump(st, bi, s16(data, i + 3), count)
    }
}

} // verus!

verus! {

/// Sample levels of a direct recording: bits MSB first, eight per byte except
/// the last byte, which contributes its `lb` most significant bits.
pub open spec fn sample_levels(samples: Seq<u8>, lb: int) -> Seq<bool> {
    if samples.len() == 0 {
        Seq::empty()
    } else {
        Seq::new((8 * (samples.len() - 1) + lb) as nat, |m: int| u8_bit(samples[m / 8], (7 - m % 8) as u8))
    }
}

pub open spec fn sat_add_u32(a: u32, b: u32) -> u32 {
    if a + b > u32::MAX { u32::MAX } else { (a + b) as u32 }
}

/// Emit an absolute level for `d` T-states, merging with the previous pulse
/// when it has the same level.
pub open spec fn push_abs(e: EarState, high: bool, d: u32) -> Option<EarState> {
    if d == 0 {
        Some(e)
    } else if e.pulses.len() > 0 && e.pulses.last().1 == high {
        let last = e.pulses.last();
        Some(EarState {
            pulses: e.pulses.update(e.pulses.len() - 1, (sat_add_u32(last.0, d), high)),
            level: !high,
            force_low: false,
        })
    } else if e.pulses.len() + 1 > MAX_SCHEDULED_PULSES {
        None
    } else {
        Some(EarState { pulses: e.pulses.push((d, high)), level: !high, force_low: false })
    }
}

pub open spec fn abs_fold(e: EarState, levels: Seq<bool>, d: u32) -> Option<EarState>
    decreases levels.len(),
{
    if levels.len() == 0 {
        Some(e)
    } else {
        match abs_fold(e, levels.drop_last(), d) {
            None => None,
            Some(e2) => push_abs(e2, levels.last(), d),
        }
    }
}

/// Direct recording: each sample bit is an absolute level held `tps` T-states.
pub open spec fn direct(e: EarState, samples: Seq<u8>, tps: u32, ub: u8, pause_ms: int) -> Option<EarState> {
    if samples.len() == 0 || tps == 0 {
        Some(pause(e, ms_to_t(pause_ms)))
    } else {
        match abs_fold(EarState { force_low: false, ..e }, sample_levels(samples, used_bits_norm(ub)), tps) {
            None => None,
            Some(e2) => Some(pause(e2, ms_to_t(pause_ms))),
        }
    }
}

/// Upper bound on direct-recording pulses.
pub open spec fn direct_est(len: int, ub: u8) -> int {
    if len == 0 { 0 } else { (len - 1) * 8 + used_bits_norm(ub) }
}

pub open spec fn step_15(data: Seq<u8>, st: Exp, bi: int, i: int) -> Option<(Exp, int)> {
    if i + 8 > data.len() || i + 8 + le24(data, i + 5) > data.len() {
        None
    } else if st.skip != 0 {
        Some((st, bi + 1))
    } else {
        let tps = le16(data, i) as u32;
        let pause_ms = le16(data, i + 2);
        let ub = data[i + 4];
        let len = le24(data, i + 5);
        let samples = data.subrange(i + 8, i + 8 + len);
        next(match open_block(st, direct_est(len, ub) + pause_pulses(ms_to_t(pause_ms))) {
            None => None,
            Some(s) => match direct(es(s), samples, tps, ub, pause_ms) {
                None => None,
                Some(e) => close_block(with_es(s, e)),
            },
        }, bi + 1)
    }
}

/// CSW run-length counts from offset `i`: a non-zero byte is a count, a zero
/// byte introduces a 32-bit count.
pub open spec fn rle_from(raw: Seq<u8>, i: int) -> Option<Seq<u32>>
    decreases raw.len() - i,
{
    if i < 0 || i >= raw.len() {
        Some(Seq::empty())
    } else if raw[i] == 0 {
        if i + 5 > raw.len() {
            None
        } else {
            match rle_from(raw, i + 5) {
                None => None,
                Some(rest) => Some(seq![le32(raw, i + 1) as u32] + rest),
            }
        }
    } else {
        match rle_from(raw, i + 1) {
            None => None,
            Some(rest) => Some(seq![raw[i] as u32] + rest),
        }
    }
}

/// Inflation cap for compressed CSW data.
pub open spec fn csw_plain_cap() -> int {
    MAX_SCHEDULED_PULSES as int * 5
}

/// Raw RLE bytes of a CSW recording (compression 1 = RLE, 2 = zlib RLE).
pub open spec fn csw_raw(csw: Seq<u8>, comp: u8) -> Option<Seq<u8>> {
    if comp == 1 {
        Some(csw)
    } else if comp == 2 {
        match crate::zlib::zlib_inflate(csw, (csw_plain_cap() + 1) as nat) {
            None => None,
            Some(p) => if p.len() > csw_plain_cap() { None } else { Some(p) },
        }
    } else {
        None
    }
}

pub open spec fn sat_mul_u32(a: u32, b: u32) -> u32 {
    if a * b > u32::MAX { u32::MAX } else { (a * b) as u32 }
}

/// Pulse durations of CSW sample counts at `tps` T-states per sample.
pub open spec fn csw_durs(counts: Seq<u32>, tps: u32) -> Seq<u32> {
    Seq::new(counts.len(), |k: int| sat_mul_u32(counts[k], tps))
}

/// The pulses of raw (uncompressed) CSW RLE bytes at `tps` T-states per
/// sample, then the pause; `stored` is the header's pulse count (0: unchecked).
pub open spec fn csw_pulses(e: EarState, raw: Seq<u8>, tps: u32, stored: int, pause_ms: int) -> Option<EarState> {
    match rle_from(raw, 0) {
        None => None,
        Some(counts) => if stored != 0 && counts.len() % 4294967296 != stored {
            None
        } else if e.pulses.len() + counts.len() > MAX_SCHEDULED_PULSES {
            None
        } else {
            Some(pause(emit(e, csw_durs(counts, tps)), ms_to_t(pause_ms)))
        },
    }
}

/// CSW recording: alternating pulses of the decoded sample counts.
pub open spec fn csw(e: EarState, csw_data: Seq<u8>, rate: int, comp: u8, stored: int, pause_ms: int) -> Option<EarState> {
    if rate == 0 || 3_500_000int / rate == 0 {
        None
    } else {
        match csw_raw(csw_data, comp) {
            None => None,
            Some(raw) => csw_pulses(e, raw, (3_500_000int / rate) as u32, stored, pause_ms),
        }
    }
}

pub open spec fn step_18(data: Seq<u8>, st: Exp, bi: int, i: int) -> Option<(Exp, int)> {
    if i + 4 > data.len() || le32(data, i) < 10 || i + 4 + le32(data, i) > data.len() {
        None
    } else if st.skip != 0 {
        Some((st, bi + 1))
    } else {
        let body = data.subrange(i + 4, i + 4 + le32(data, i));
        let pause_ms = le16(body, 0);
        let rate = le24(body, 2);
        let comp = body[5];
        let stored = le32(body, 6);
        let budget = if stored + pause_pulses(ms_to_t(pause_ms)) > usize::MAX {
            usize::MAX as int
        } else {
            stored + pause_pulses(ms_to_t(pause_ms))
        };
        next(match open_block(st, budget) {
            None => None,
            Some(s) => match csw(es(s), body.skip(10), rate, comp, stored, pause_ms) {
                None => None,
                Some(e) => close_block(with_es(s, e)),
            },
        }, bi + 1)
    }
}

} // verus!

verus! {

/// Symbol alphabet size (`0` means 256; absent when no symbols are used).
pub open spec fn alphabet_size(raw: u8, present: bool) -> int {
    if !present { 0 } else if raw == 0 { 256 } else { raw as int }
}

/// Bits needed to index an alphabet of `a` symbols (0 for one symbol or none).
pub open spec fn bits_per_symbol(a: int) -> int {
    if a <= 1 { 0 } else if a <= 2 { 1 } else if a <= 4 { 2 } else if a <= 8 { 3 } else if a <= 16 { 4 }
    else if a <= 32 { 5 } else if a <= 64 { 6 } else if a <= 128 { 7 } else if a <= 256 { 8 } else { 9 }
}

/// A symbol definition: polarity flags and up to `max_pulses` pulse lengths.
pub struct SymSpec {
    pub flags: u8,
    pub pulses: Seq<u16>,
}

/// Symbol `k` of a table starting at `off` whose rows hold `1 + 2 * maxp` bytes.
pub open spec fn symdef_at(body: Seq<u8>, off: int, maxp: int, k: int) -> SymSpec {
    let row = off + k * (1 + 2 * maxp);
    SymSpec { flags: body[row], pulses: Seq::new(maxp as nat, |j: int| le16(body, row + 1 + 2 * j) as u16) }
}

/// `count` symbol definitions at `off` and the offset after them.
pub open spec fn symdefs(body: Seq<u8>, off: int, count: int, maxp: int) -> Option<(Seq<SymSpec>, int)> {
    if count > 0 && off + count * (1 + 2 * maxp) > body.len() {
        None
    } else {
        Some((Seq::new(count as nat, |k: int| symdef_at(body, off, maxp, k)), off + count * (1 + 2 * maxp)))
    }
}

/// Pulse lengths of a symbol up to its first zero.
pub open spec fn nonzero_prefix(s: Seq<u16>) -> Seq<u16>
    decreases s.len(),
{
    if s.len() == 0 || s[0] == 0 { Seq::empty() } else { seq![s[0]] + nonzero_prefix(s.skip(1)) }
}

/// Starting polarity of a symbol: 0 toggles as usual, 1 keeps the level,
/// 2 forces low, 3 forces high.
pub open spec fn polarity(e: EarState, flags: u8) -> EarState {
    let p = flags % 4;
    if p == 0 {
        e
    } else if p == 1 {
        EarState { force_low: false, level: !e.level, ..e }
    } else if p == 2 {
        EarState { force_low: false, level: false, ..e }
    } else {
        EarState { force_low: false, level: true, ..e }
    }
}

pub open spec fn emit_sym(e: EarState, sym: SymSpec) -> Option<EarState> {
    let e1 = polarity(e, sym.flags);
    let ps = nonzero_prefix(sym.pulses);
    if ps.len() > 0 && e1.pulses.len() + ps.len() > MAX_SCHEDULED_PULSES {
        None
    } else {
        Some(emit(e1, Seq::new(ps.len(), |k: int| ps[k] as u32)))
    }
}

pub open spec fn sym_repeat(e: EarState, sym: SymSpec, reps: int) -> Option<EarState>
    decreases reps,
{
    if reps <= 0 {
        Some(e)
    } else {
        match sym_repeat(e, sym, reps - 1) {
            None => None,
            Some(e2) => emit_sym(e2, sym),
        }
    }
}

/// The first `k` entries of a pilot stream at `off` (symbol byte, 16-bit repeat count).
pub open spec fn pilot_fold(e: EarState, body: Seq<u8>, off: int, k: int, syms: Seq<SymSpec>) -> Option<EarState>
    decreases k,
{
    if k <= 0 {
        Some(e)
    } else {
        match pilot_fold(e, body, off, k - 1, syms) {
            None => None,
            Some(e2) => {
                let j = off + 3 * (k - 1);
                if body[j] as int >= syms.len() {
                    None
                } else {
                    sym_repeat(e2, syms[body[j] as int], le16(body, j + 1))
                }
            },
        }
    }
}

/// Value of the `nb` bits starting at bit `start` of `stream` (MSB first).
pub open spec fn bits_value(stream: Seq<u8>, start: int, nb: int) -> Option<int>
    decreases nb,
{
    if nb <= 0 {
        Some(0)
    } else {
        match bits_value(stream, start, nb - 1) {
            None => None,
            Some(v) => {
                let b = start + nb - 1;
                if b / 8 >= stream.len() {
                    None
                } else {
                    Some(2 * v + if u8_bit(stream[b / 8], (7 - b % 8) as u8) { 1int } else { 0int })
                }
            },
        }
    }
}

/// The first `k` symbols of a data stream with `nb` bits per symbol.
pub open spec fn data_fold(e: EarState, stream: Seq<u8>, nb: int, k: int, syms: Seq<SymSpec>) -> Option<EarState>
    decreases k,
{
    if k <= 0 {
        Some(e)
    } else {
        match data_fold(e, stream, nb, k - 1, syms) {
            None => None,
            Some(e2) => match bits_value(stream, (k - 1) * nb, nb) {
                None => None,
                Some(v) => if v >= syms.len() { None } else { emit_sym(e2, syms[v]) },
            },
        }
    }
}

/// Generalized data block body (starting at its pause word).
pub open spec fn gdb(e: EarState, body: Seq<u8>) -> Option<EarState> {
    let pause_ms = le16(body, 0);
    let totp = le32(body, 2);
    let npp = body[6] as int;
    let totd = le32(body, 8);
    let npd = body[12] as int;
    let asp = alphabet_size(body[7], totp > 0);
    let asd = alphabet_size(body[13], totd > 0);
    let p = if totp > 0 { symdefs(body, 14, asp, npp) } else { Some((Seq::empty(), 14int)) };
    match p {
        None => None,
        Some((psyms, off1)) => {
            let e1 = if totp == 0 {
                Some(e)
            } else if off1 + 3 * totp > body.len() {
                None
            } else {
                pilot_fold(e, body, off1, totp, psyms)
            };
            let off2 = if totp > 0 { off1 + 3 * totp } else { off1 };
            match e1 {
                None => None,
                Some(e1) => {
                    let d = if totd > 0 { symdefs(body, off2, asd, npd) } else { Some((Seq::empty(), off2)) };
                    match d {
                        None => None,
                        Some((dsyms, off3)) => {
                            let nb = bits_per_symbol(asd);
                            let e2 = if totd == 0 {
                                Some(e1)
                            } else if nb == 0 && totd > 1 {
                                None
                            } else {
                                data_fold(e1, body.skip(off3), nb, totd, dsyms)
                            };
                            match e2 {
                                None => None,
                                Some(e2) => Some(pause(e2, ms_to_t(pause_ms))),
                            }
                        },
                    }
                },
            }
        },
    }
}

pub open spec fn step_19(data: Seq<u8>, st: Exp, bi: int, i: int) -> Option<(Exp, int)> {
    if i + 4 > data.len() || le32(data, i) < 14 || i + 4 + le32(data, i) > data.len() {
        None
    } else if st.skip != 0 {
        Some((st, bi + 1))
    } else if st.starts.len() >= MAX_LOGICAL_BLOCKS {
        None
    } else {
        let s = Exp { starts: st.starts.push(st.pulses.len() as usize), ..st };
        next(match gdb(es(s), data.subrange(i + 4, i + 4 + le32(data, i))) {
            None => None,
            Some(e) => close_block(with_es(s, e)),
        }, bi + 1)
    }
}

/// One block of the walk: the state and block index after block `bi`.
#[verifier::opaque]
pub open spec fn tzx_step(data: Seq<u8>, offs: Seq<int>, st: Exp, bi: int) -> Option<(Exp, int)> {
    let i = offs[bi] + 1;
    let id = data[offs[bi]];
    let count = offs.len() as int;
    if id == 0x10 { step_10(data, st, bi, i) }
    else if id == 0x11 { step_11(data, st, bi, i) }
    else if id == 0x12 { step_12(data, st, bi, i) }
    else if id == 0x13 { step_13(data, st, bi, i) }
    else if id == 0x14 { step_14(data, st, bi, i) }
    else if id == 0x15 { step_15(data, st, bi, i) }
    else if id == 0x18 { step_18(data, st, bi, i) }
    else if id == 0x19 { step_19(data, st, bi, i) }
    else if id == 0x20 { step_20(data, st, bi, i) }
    else if id == 0x21 || id == 0x30 || id == 0x33 { step_skip(data, st, bi, i, 1) }
    else if id == 0x22 || id == 0x5a { step_skip(data, st, bi, i, 0) }
    else if id == 0x23 { step_23(data, st, bi, i, count) }
    else if id == 0x24 { step_24(data, st, bi, i) }
    else if id == 0x25 { step_25(st, bi) }
    else if id == 0x26 { step_26(data, st, bi, i, count) }
    else if id == 0x27 { step_27(st, bi, count) }
    else if id == 0x28 { step_28(data, st, bi, i, count) }
    else if id == 0x2a { step_skip(data, st, bi, i, 4) }
    else if id == 0x2b { step_2b(data, st, bi, i) }
    else if id == 0x32 { step_skip(data, st, bi, i, 2) }
    else if id == 0x35 { step_skip(data, st, bi, i, 0x14) }
    else { None }
}

/// Remaining replay and transfer budget.
pub open spec fn budget(st: Exp) -> int {
    (if 0 <= st.replays <= MAX_LOOP_REPLAYS { MAX_LOOP_REPLAYS - st.replays } else { 0 })
        + (if 0 <= st.transfers <= MAX_CONTROL_TRANSFERS { MAX_CONTROL_TRANSFERS - st.transfers } else { 0 })
}

/// A step either moves to the next block or spends budget.
pub open spec fn progresses(st: Exp, bi: int, s2: Exp, b2: int) -> bool {
    (budget(s2) < budget(st) && budget(s2) >= 0) || (budget(s2) == budget(st) && b2 == bi + 1)
}

/// Walk the blocks from `bi` until the walk leaves the tape.
pub open spec fn tzx_run(data: Seq<u8>, offs: Seq<int>, st: Exp, bi: int) -> Option<Exp>
    decreases budget(st), offs.len() - bi,
{
    if bi < 0 || bi >= offs.len() {
        Some(st)
    } else {
        match tzx_step(data, offs, st, bi) {
            None => None,
            Some((s2, b2)) => if progresses(st, bi, s2, b2) {
                tzx_run(data, offs, s2, b2)
            } else {
                None
            },
        }
    }
}

/// `ZXTape!`
pub open spec fn tzx_signature() -> Seq<u8> {
    seq![0x5Au8, 0x58u8, 0x54u8, 0x61u8, 0x70u8, 0x65u8, 0x21u8]
}

/// The expansion of a whole TZX image, or `None` when it is rejected.
pub open spec fn tzx_expand(data: Seq<u8>) -> Option<Exp> {
    if data.len() < 10 || data.take(7) != tzx_signature() || data[7] != 0x1a {
        None
    } else {
        match crate::tzx_frame::block_offsets(data) {
            None => None,
            Some(offs) => match tzx_run(data, offs, exp_init(), 0) {
                None => None,
                Some(st) => if st.skip != 0 || st.loops.len() > 0 || st.calls.len() > 0 { None } else { Some(st) },
            },
        }
    }
}

} // verus!

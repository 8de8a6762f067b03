//! The messages with which a TZX image is rejected.
//!
//! Each function here follows the checks of the matching step of
//! [`crate::tzx_spec`] in order and names the message of the first one that
//! fails. `None` marks the one failure whose text ends in words from
//! outside: the zlib decoder's own message about a compressed CSW recording
//! (`0x18`), reported after a fixed prefix (see [`reports`]).

use vstd::prelude::*;
use crate::tap::le16;
use crate::text::{dec_chars, hex2_chars, signed_chars};
use crate::tzx_expand::JumpKind;
use crate::tzx_frame::{block_offsets, index_error_from, le24, le32, s16};
use crate::tzx_spec::{
    bump, call_offsets, csw, es, exp_init, gdb, ms_to_t, open_block, pause_pulses, progresses,
    tzx_run, tzx_signature, tzx_step, Exp, MAX_LOGICAL_BLOCKS, alphabet_size, bits_per_symbol, bits_value,
    data_fold, pilot_fold, symdefs, SymSpec, csw_plain_cap, csw_raw, rle_from,
};
use crate::ear::EarState;

verus! {

/// How a failure of the zlib decoder is reported: this text, then the
/// decoder's own message.
pub open spec fn inflate_failed_prefix() -> Seq<char> {
    "TZX CSW Z-RLE inflate failed: "@
}

/// `m` is the message named by `t`: the text itself, or for `None` a message
/// that starts with [`inflate_failed_prefix`].
pub open spec fn reports(m: Seq<char>, t: Option<Seq<char>>) -> bool {
    match t {
        Some(t) => m == t,
        None => inflate_failed_prefix().len() <= m.len() && m.take(inflate_failed_prefix().len() as int)
            == inflate_failed_prefix(),
    }
}

pub open spec fn blocks_cap_text() -> Seq<char> {
    "TZX logical block count exceeded 1048576 (loop expansion?)"@
}

pub open spec fn pulses_cap_text() -> Seq<char> {
    "TZX pulse schedule exceeded 16777216 pulses (loop expansion?)"@
}

/// The cap that a block starting in state `st` runs into.
pub open spec fn cap_err(st: Exp) -> Seq<char> {
    if st.starts.len() >= MAX_LOGICAL_BLOCKS { blocks_cap_text() } else { pulses_cap_text() }
}

/// `truncated 0x{id:02x}`.
pub open spec fn truncated_text(id: u8) -> Seq<char> {
    "truncated "@ + seq!['0', 'x'] + hex2_chars(id)
}

pub open spec fn jump_name(kind: JumpKind) -> Seq<char> {
    match kind {
        JumpKind::Jump => "Jump (0x23)"@,
        JumpKind::Call => "Call (0x26)"@,
        JumpKind::Select => "Select (0x28)"@,
    }
}

/// Why a relative transfer of `rel` blocks from block `from` has no target.
pub open spec fn resolve_err(from: int, rel: int, count: int, kind: JumpKind) -> Seq<char> {
    if rel == 0 {
        match kind {
            JumpKind::Jump => "TZX Jump (0x23) relative 0 is an infinite loop"@,
            JumpKind::Call => "TZX Call (0x26) relative 0 is an infinite loop"@,
            JumpKind::Select => "TZX Select (0x28) relative 0 is an infinite loop"@,
        }
    } else {
        "TZX "@ + jump_name(kind) + " target out of range (from "@ + dec_chars(from as nat) + " + "@
            + signed_chars(rel) + ", "@ + dec_chars(count as nat) + " blocks)"@
    }
}

pub open spec fn transfers_cap_text() -> Seq<char> {
    "TZX control-flow transfer count exceeded 1048576"@
}

/// Why a counted transfer fails (see [`crate::tzx_spec::jump`]).
pub open spec fn jump_err(st: Exp, from: int, rel: int, count: int, kind: JumpKind) -> Seq<char> {
    if bump(st) is None { transfers_cap_text() } else { resolve_err(from, rel, count, kind) }
}

pub open spec fn err_10(data: Seq<u8>, st: Exp, i: int) -> Seq<char> {
    if i + 4 > data.len() {
        "truncated 0x10"@
    } else if i + 4 + le16(data, i + 2) > data.len() {
        "0x10 data truncated"@
    } else {
        cap_err(st)
    }
}

pub open spec fn err_11(data: Seq<u8>, st: Exp, i: int) -> Seq<char> {
    if i + 18 > data.len() {
        "truncated 0x11"@
    } else if i + 18 + le24(data, i + 15) > data.len() {
        "0x11 data truncated"@
    } else {
        cap_err(st)
    }
}

pub open spec fn err_12(data: Seq<u8>, st: Exp, i: int) -> Seq<char> {
    if i + 4 > data.len() { "truncated 0x12"@ } else { cap_err(st) }
}

pub open spec fn err_13(data: Seq<u8>, st: Exp, i: int) -> Seq<char> {
    if i >= data.len() {
        "truncated 0x13"@
    } else if i + 1 + 2 * (data[i] as int) > data.len() {
        "0x13 pulses truncated"@
    } else {
        cap_err(st)
    }
}

pub open spec fn err_14(data: Seq<u8>, st: Exp, i: int) -> Seq<char> {
    if i + 10 > data.len() {
        "truncated 0x14"@
    } else if i + 10 + le24(data, i + 7) > data.len() {
        "0x14 data truncated"@
    } else {
        cap_err(st)
    }
}

/// The message with which a CSW recording is rejected (see [`csw`]); `None`
/// when the zlib decoder itself fails, whose message follows the prefix
/// `TZX CSW Z-RLE inflate failed: `.
pub open spec fn csw_err(csw_data: Seq<u8>, rate: int, comp: u8, stored: int) -> Option<Seq<char>> {
    let cap = csw_plain_cap();
    if rate == 0 {
        Some("TZX CSW sample rate is 0"@)
    } else if 3_500_000int / rate == 0 {
        Some("TZX CSW sample rate too high"@)
    } else if comp != 1 && comp != 2 {
        Some("unsupported TZX CSW compression "@ + seq!['0', 'x'] + hex2_chars(comp))
    } else if comp == 2 && crate::zlib::zlib_inflate(csw_data, (cap + 1) as nat) is None {
        None
    } else if comp == 2 && crate::zlib::zlib_inflate(csw_data, (cap + 1) as nat).unwrap().len() > cap {
        Some("TZX CSW Z-RLE stream too large"@)
    } else {
        Some(csw_pulses_err(csw_raw(csw_data, comp).unwrap(), stored))
    }
}

/// The message with which raw CSW RLE bytes are rejected (see
/// [`crate::tzx_spec::csw_pulses`]).
pub open spec fn csw_pulses_err(raw: Seq<u8>, stored: int) -> Seq<char> {
    match rle_from(raw, 0) {
        None => "truncated CSW RLE dword"@,
        Some(counts) => if stored != 0 && counts.len() % 4294967296 != stored {
            "TZX CSW pulse count mismatch (got "@ + dec_chars(counts.len()) + ", header "@ + dec_chars(stored as nat)
                + ")"@
        } else {
            pulses_cap_text()
        },
    }
}

/// A direct recording fails only on its header or on a cap.
pub open spec fn err_15(data: Seq<u8>, st: Exp, i: int) -> Seq<char> {
    if i + 8 > data.len() {
        "truncated 0x15"@
    } else if i + 8 + le24(data, i + 5) > data.len() {
        "0x15 data truncated"@
    } else {
        cap_err(st)
    }
}

pub open spec fn err_18(data: Seq<u8>, st: Exp, i: int) -> Option<Seq<char>> {
    if i + 4 > data.len() {
        Some("truncated 0x18"@)
    } else if le32(data, i) < 10 || i + 4 + le32(data, i) > data.len() {
        Some("truncated 0x18 body"@)
    } else {
        let body = data.subrange(i + 4, i + 4 + le32(data, i));
        let pause_ms = le16(body, 0);
        let stored = le32(body, 6);
        let budget = if stored + pause_pulses(ms_to_t(pause_ms)) > usize::MAX {
            usize::MAX as int
        } else {
            stored + pause_pulses(ms_to_t(pause_ms))
        };
        match open_block(st, budget) {
            None => Some(cap_err(st)),
            Some(s) => match csw(es(s), body.skip(10), le24(body, 2), body[5], stored, pause_ms) {
                None => csw_err(body.skip(10), le24(body, 2), body[5], stored),
                Some(_) => Some(pulses_cap_text()),
            },
        }
    }
}

pub open spec fn err_19(data: Seq<u8>, st: Exp, i: int) -> Seq<char> {
    if i + 4 > data.len() {
        "truncated 0x19"@
    } else if le32(data, i) < 14 || i + 4 + le32(data, i) > data.len() {
        "truncated 0x19 body"@
    } else if st.starts.len() >= MAX_LOGICAL_BLOCKS {
        blocks_cap_text()
    } else {
        let s = Exp { starts: st.starts.push(st.pulses.len() as usize), ..st };
        let body = data.subrange(i + 4, i + 4 + le32(data, i));
        match gdb(es(s), body) {
            None => gdb_err(es(s), body),
            Some(_) => pulses_cap_text(),
        }
    }
}

pub open spec fn symdef_text() -> Seq<char> {
    "truncated TZX GDB SYMDEF"@
}

/// `{what}{v} out of range ({n})`.
pub open spec fn symbol_range_text(what: Seq<char>, v: int, n: int) -> Seq<char> {
    what + dec_chars(v as nat) + " out of range ("@ + dec_chars(n as nat) + ")"@
}

/// The message of the first failing entry among the first `k` of a pilot stream.
pub open spec fn pilot_fold_err(e: EarState, body: Seq<u8>, off: int, k: int, syms: Seq<SymSpec>) -> Seq<char>
    decreases k,
{
    if k <= 0 {
        Seq::empty()
    } else {
        match pilot_fold(e, body, off, k - 1, syms) {
            None => pilot_fold_err(e, body, off, k - 1, syms),
            Some(_) => {
                let j = off + 3 * (k - 1);
                if body[j] as int >= syms.len() {
                    symbol_range_text("TZX GDB pilot symbol "@, body[j] as int, syms.len() as int)
                } else {
                    pulses_cap_text()
                }
            },
        }
    }
}

/// The message of the first failing symbol among the first `k` of a data stream.
pub open spec fn data_fold_err(e: EarState, stream: Seq<u8>, nb: int, k: int, syms: Seq<SymSpec>) -> Seq<char>
    decreases k,
{
    if k <= 0 {
        Seq::empty()
    } else {
        match data_fold(e, stream, nb, k - 1, syms) {
            None => data_fold_err(e, stream, nb, k - 1, syms),
            Some(_) => match bits_value(stream, (k - 1) * nb, nb) {
                None => "truncated TZX GDB data stream"@,
                Some(v) => if v >= syms.len() {
                    symbol_range_text("TZX GDB data symbol "@, v, syms.len() as int)
                } else {
                    pulses_cap_text()
                },
            },
        }
    }
}

/// The message with which a generalized data body is rejected (see [`gdb`]).
pub open spec fn gdb_err(e: EarState, body: Seq<u8>) -> Seq<char> {
    let totp = le32(body, 2);
    let npp = body[6] as int;
    let totd = le32(body, 8);
    let npd = body[12] as int;
    let asp = alphabet_size(body[7], totp > 0);
    let asd = alphabet_size(body[13], totd > 0);
    let p = if totp > 0 { symdefs(body, 14, asp, npp) } else { Some((Seq::empty(), 14int)) };
    match p {
        None => symdef_text(),
        Some((psyms, off1)) => if totp > 0 && off1 + 3 * totp > body.len() {
            "truncated TZX GDB pilot stream"@
        } else if totp > 0 && pilot_fold(e, body, off1, totp, psyms) is None {
            pilot_fold_err(e, body, off1, totp, psyms)
        } else {
            let e1 = if totp == 0 { e } else { pilot_fold(e, body, off1, totp, psyms).unwrap() };
            let off2 = if totp > 0 { off1 + 3 * totp } else { off1 };
            let d = if totd > 0 { symdefs(body, off2, asd, npd) } else { Some((Seq::empty(), off2)) };
            match d {
                None => symdef_text(),
                Some((dsyms, off3)) => if totd > 0 && bits_per_symbol(asd) == 0 && totd > 1 {
                    "TZX GDB data stream with ASD<=1 and TOTD>1 is invalid"@
                } else {
                    data_fold_err(e1, body.skip(off3), bits_per_symbol(asd), totd, dsyms)
                },
            }
        },
    }
}


pub open spec fn err_20(data: Seq<u8>, st: Exp, i: int) -> Seq<char> {
    if i + 2 > data.len() { "truncated 0x20"@ } else { cap_err(st) }
}

pub open spec fn err_skip(id: u8) -> Seq<char> {
    truncated_text(id)
}

pub open spec fn err_23(data: Seq<u8>, st: Exp, bi: int, i: int, count: int) -> Seq<char> {
    if i + 2 > data.len() { "truncated 0x23"@ } else { jump_err(st, bi, s16(data, i), count, JumpKind::Jump) }
}

pub open spec fn err_24(data: Seq<u8>, i: int) -> Seq<char> {
    if i + 2 > data.len() { "truncated 0x24"@ } else { "TZX skip-depth overflow (nested Loop Start)"@ }
}

pub open spec fn err_25(st: Exp) -> Seq<char> {
    if st.loops.len() == 0 {
        "TZX Loop End (0x25) without matching Loop Start"@
    } else if st.pulses.len() > crate::tzx_spec::MAX_SCHEDULED_PULSES {
        pulses_cap_text()
    } else {
        "TZX loop replay count exceeded 1048576"@
    }
}

pub open spec fn err_26(data: Seq<u8>, st: Exp, bi: int, i: int, count: int) -> Seq<char> {
    if i + 2 > data.len() {
        "truncated 0x26"@
    } else if i + 2 + 2 * le16(data, i) > data.len() {
        "truncated 0x26 call list"@
    } else if st.calls.len() > 0 {
        "TZX nested Call sequence (0x26) is not allowed"@
    } else {
        jump_err(st, bi, call_offsets(data, i, le16(data, i))[0] as int, count, JumpKind::Call)
    }
}

pub open spec fn err_27(st: Exp, count: int) -> Seq<char> {
    if st.calls.len() == 0 {
        "TZX Return (0x27) without matching Call sequence"@
    } else {
        let f = st.calls.last();
        jump_err(st, f.call_bi, f.offsets[f.next_call] as int, count, JumpKind::Call)
    }
}

pub open spec fn err_28(data: Seq<u8>, st: Exp, bi: int, i: int, count: int) -> Seq<char> {
    if i + 2 > data.len() {
        "truncated 0x28"@
    } else if i + 2 + le16(data, i) > data.len() {
        "truncated 0x28 body"@
    } else {
        jump_err(st, bi, s16(data, i + 3), count, JumpKind::Select)
    }
}

/// The message of a failing block `bi` (see [`tzx_step`]).
#[verifier::opaque]
pub open spec fn tzx_step_err(data: Seq<u8>, offs: Seq<int>, st: Exp, bi: int) -> Option<Seq<char>> {
    let i = offs[bi] + 1;
    let id = data[offs[bi]];
    let count = offs.len() as int;
    if id == 0x10 { Some(err_10(data, st, i)) }
    else if id == 0x11 { Some(err_11(data, st, i)) }
    else if id == 0x12 { Some(err_12(data, st, i)) }
    else if id == 0x13 { Some(err_13(data, st, i)) }
    else if id == 0x14 { Some(err_14(data, st, i)) }
    else if id == 0x15 { Some(err_15(data, st, i)) }
    else if id == 0x18 { err_18(data, st, i) }
    else if id == 0x19 { Some(err_19(data, st, i)) }
    else if id == 0x20 { Some(err_20(data, st, i)) }
    else if id == 0x23 { Some(err_23(data, st, bi, i, count)) }
    else if id == 0x24 { Some(err_24(data, i)) }
    else if id == 0x25 { Some(err_25(st)) }
    else if id == 0x26 { Some(err_26(data, st, bi, i, count)) }
    else if id == 0x27 { Some(err_27(st, count)) }
    else if id == 0x28 { Some(err_28(data, st, bi, i, count)) }
    else if id == 0x2b { Some("truncated 0x2b"@) }
    else if id == 0x21 || id == 0x30 || id == 0x33 || id == 0x22 || id == 0x5a || id == 0x2a || id == 0x32
        || id == 0x35 { Some(err_skip(id)) }
    else { Some(crate::tzx::unsupported_text(id, offs[bi], Seq::empty())) }
}

/// The message of the walk from block `bi` in state `st`, where it fails.
pub open spec fn tzx_run_err(data: Seq<u8>, offs: Seq<int>, st: Exp, bi: int) -> Option<Seq<char>>
    decreases crate::tzx_spec::budget(st), offs.len() - bi,
{
    if bi < 0 || bi >= offs.len() {
        None
    } else {
        match tzx_step(data, offs, st, bi) {
            None => tzx_step_err(data, offs, st, bi),
            Some((s2, b2)) => if progresses(st, bi, s2, b2) {
                tzx_run_err(data, offs, s2, b2)
            } else {
                None
            },
        }
    }
}

/// The message with which a TZX image is rejected (see [`crate::tzx_spec::tzx_expand`]).
pub open spec fn tzx_expand_err(data: Seq<u8>) -> Option<Seq<char>> {
    if data.len() < 10 || data.take(7) != tzx_signature() || data[7] != 0x1a {
        Some("missing TZX signature"@)
    } else {
        match block_offsets(data) {
            None => Some(index_error_from(data, 10)),
            Some(offs) => match tzx_run(data, offs, exp_init(), 0) {
                None => tzx_run_err(data, offs, exp_init(), 0),
                Some(st) => if st.skip != 0 || st.loops.len() > 0 {
                    Some("TZX Loop Start (0x24) without matching Loop End"@)
                } else {
                    Some("TZX Call sequence (0x26) without matching Return (0x27)"@)
                },
            },
        }
    }
}

} // verus!

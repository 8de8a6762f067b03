//! What the TZX walks do with particular blocks, stated over the image bytes.

use vstd::prelude::*;
use crate::ear::{emit, lemma_emit_concat, pause, EarState};
use crate::tzx::{tap_extract_err, tap_extract_from};
use crate::tzx_spec::{step_10, step_11, step_12, step_13, step_20, Exp};
use crate::tap::le16;
use crate::tzx_frame::{le24, le32};

verus! {

/// Emitting durations appends one pulse per duration, each carrying its
/// duration, and keeps what was there.
pub proof fn lemma_emit_appends(e: EarState, durs: Seq<u32>)
    ensures
        emit(e, durs).pulses.len() == e.pulses.len() + durs.len(),
        forall|k: int| 0 <= k < e.pulses.len() ==> #[trigger] emit(e, durs).pulses[k] == e.pulses[k],
        forall|k: int| 0 <= k < durs.len() ==> #[trigger] emit(e, durs).pulses[e.pulses.len() + k].0 == durs[k],
{
}

/// A pause keeps the pulses already there.
pub proof fn lemma_pause_keeps(e: EarState, t: u32)
    ensures
        pause(e, t).pulses.len() >= e.pulses.len(),
        forall|k: int| 0 <= k < e.pulses.len() ==> #[trigger] pause(e, t).pulses[k] == e.pulses[k],
{
}

/// A turbo speed data block (`0x11`) whose body starts at `i` plays, after
/// the pulses already scheduled, its pilot pulses (body word 0, as many as
/// body word 10 says), then sync 1 (body word 2), then sync 2 (body word 4).
pub proof fn lemma_turbo_block_order(data: Seq<u8>, st: Exp, bi: int, i: int)
    requires
        st.skip == 0,
        step_11(data, st, bi, i) is Some,
    ensures
        ({
            let s2 = step_11(data, st, bi, i).unwrap().0;
            let n = st.pulses.len() as int;
            let pp = data[i + 10] as int + 256 * data[i + 11] as int;
            &&& s2.pulses.len() >= n + pp + 2
            &&& forall|k: int| 0 <= k < n ==> #[trigger] s2.pulses[k] == st.pulses[k]
            &&& forall|k: int| 0 <= k < pp ==> #[trigger] s2.pulses[n + k].0 == data[i] as int + 256 * data[i + 1] as int
            &&& s2.pulses[n + pp].0 == data[i + 2] as int + 256 * data[i + 3] as int
            &&& s2.pulses[n + pp + 1].0 == data[i + 4] as int + 256 * data[i + 5] as int
        }),
{
    let pilot = crate::tap::le16(data, i) as u32;
    let sync1 = crate::tap::le16(data, i + 2) as u32;
    let sync2 = crate::tap::le16(data, i + 4) as u32;
    let pp = crate::tap::le16(data, i + 10);
    let head = crate::ear::repeat(pilot, pp) + seq![sync1, sync2];
    let e0 = crate::tzx_spec::es(st);
    let e1 = emit(e0, head);
    lemma_emit_appends(e0, head);
    let zero = crate::tap::le16(data, i + 6) as u32;
    let one = crate::tap::le16(data, i + 8) as u32;
    let ub = data[i + 12];
    let pause_ms = crate::tap::le16(data, i + 13);
    let len = crate::tzx_frame::le24(data, i + 15);
    let block = data.subrange(i + 18, i + 18 + len);
    let d = crate::ear::data_durs(block, zero, one, crate::tzx_spec::used_bits_norm(ub));
    let e2 = emit(e1, d);
    lemma_emit_appends(e1, d);
    let e3 = pause(e2, crate::tzx_spec::ms_to_t(pause_ms));
    lemma_pause_keeps(e2, crate::tzx_spec::ms_to_t(pause_ms));
    assert(crate::tzx_spec::pure_data(e1, block, zero, one, ub, pause_ms) == e3);
    assert(head[pp] == sync1 && head[pp + 1] == sync2);
    assert forall|k: int| 0 <= k < pp implies head[k] == pilot by {}
    assert(e1.pulses[e0.pulses.len() + pp].0 == head[pp]);
    assert(e1.pulses[e0.pulses.len() + pp + 1].0 == head[pp + 1]);
}

/// A standard speed data block (`0x10`) whose body starts at `i` plays, after
/// the pulses already scheduled, 8063 pilot pulses of 2168 T-states before a
/// header (flag byte 0, or no payload) and 3223 before data, then the sync
/// pulses 667 and 735 T-states long.
pub proof fn lemma_standard_block_order(data: Seq<u8>, st: Exp, bi: int, i: int)
    requires
        0 <= i,
        st.skip == 0,
        step_10(data, st, bi, i) is Some,
    ensures
        ({
            let s2 = step_10(data, st, bi, i).unwrap().0;
            let n = st.pulses.len() as int;
            let len = data[i + 2] as int + 256 * data[i + 3] as int;
            let pp: int = if len > 0 && data[i + 4] != 0 { 3223 } else { 8063 };
            &&& s2.pulses.len() >= n + pp + 2
            &&& forall|k: int| 0 <= k < n ==> #[trigger] s2.pulses[k] == st.pulses[k]
            &&& forall|k: int| 0 <= k < pp ==> #[trigger] s2.pulses[n + k].0 == 2168
            &&& s2.pulses[n + pp].0 == 667
            &&& s2.pulses[n + pp + 1].0 == 735
        }),
{
    let len = crate::tap::le16(data, i + 2);
    assert(i + 4 + len <= data.len());
    let block = data.subrange(i + 4, i + 4 + len);
    let pp = crate::tap::pilot_count(block);
    let head = crate::ear::repeat(crate::tap::PILOT_PULSE_T, pp) + seq![crate::tap::SYNC1_T, crate::tap::SYNC2_T];
    let e0 = crate::tzx_spec::es(st);
    let e1 = emit(e0, head);
    lemma_emit_appends(e0, head);
    let d = crate::ear::data_durs(block, crate::tap::BIT0_T, crate::tap::BIT1_T, 8);
    lemma_emit_concat(e0, head, d);
    let e2 = emit(e1, d);
    lemma_emit_appends(e1, d);
    let pause_ms = crate::tap::le16(data, i);
    let t = if pause_ms == 0 { crate::tap::PAUSE_T } else { crate::tzx_spec::ms_to_t(pause_ms) };
    lemma_pause_keeps(e2, t);
    assert(head[pp] == crate::tap::SYNC1_T && head[pp + 1] == crate::tap::SYNC2_T);
    assert forall|k: int| 0 <= k < pp implies head[k] == crate::tap::PILOT_PULSE_T by {}
    assert(e1.pulses[e0.pulses.len() + pp].0 == head[pp]);
    assert(e1.pulses[e0.pulses.len() + pp + 1].0 == head[pp + 1]);
    assert(len > 0 ==> block[0] == data[i + 4]);
    assert(crate::tzx_spec::std_block(st, data, i) is Some);
}

/// A pure tone block (`0x12`) whose body starts at `i` plays, after the
/// pulses already scheduled, as many pulses as its second word says, each as
/// long as its first word.
pub proof fn lemma_pure_tone(data: Seq<u8>, st: Exp, bi: int, i: int)
    requires
        st.skip == 0,
        step_12(data, st, bi, i) is Some,
    ensures
        ({
            let s2 = step_12(data, st, bi, i).unwrap().0;
            let n = st.pulses.len() as int;
            let count = data[i + 2] as int + 256 * data[i + 3] as int;
            &&& s2.pulses.len() == n + count
            &&& forall|k: int| 0 <= k < n ==> #[trigger] s2.pulses[k] == st.pulses[k]
            &&& forall|k: int| 0 <= k < count ==> #[trigger] s2.pulses[n + k].0 == data[i] as int + 256 * data[i + 1] as int
        }),
{
    let count = le16(data, i + 2);
    let d = crate::ear::repeat(le16(data, i) as u32, count);
    lemma_emit_appends(crate::tzx_spec::es(st), d);
    assert forall|k: int| 0 <= k < count implies d[k] == le16(data, i) as u32 by {}
}

/// A pulse sequence block (`0x13`) whose count byte is at `i` plays, after the
/// pulses already scheduled, the pulses it lists, in order.
pub proof fn lemma_pulse_sequence(data: Seq<u8>, st: Exp, bi: int, i: int)
    requires
        st.skip == 0,
        step_13(data, st, bi, i) is Some,
    ensures
        ({
            let s2 = step_13(data, st, bi, i).unwrap().0;
            let n = st.pulses.len() as int;
            &&& s2.pulses.len() == n + data[i] as int
            &&& forall|k: int| 0 <= k < n ==> #[trigger] s2.pulses[k] == st.pulses[k]
            &&& forall|k: int| 0 <= k < data[i] as int ==> #[trigger] s2.pulses[n + k].0
                == data[i + 1 + 2 * k] as int + 256 * data[i + 2 + 2 * k] as int
        }),
{
    let d = crate::tzx_spec::pulse_list(data, i, data[i] as int);
    lemma_emit_appends(crate::tzx_spec::es(st), d);
}

/// A pause block (`0x20`) of `ms` milliseconds adds one pulse of `ms * 3500`
/// T-states at the current level and forces the next edge low; a zero pause
/// adds nothing.
pub proof fn lemma_pause_block(data: Seq<u8>, st: Exp, bi: int, i: int)
    requires
        st.skip == 0,
        step_20(data, st, bi, i) is Some,
    ensures
        ({
            let s2 = step_20(data, st, bi, i).unwrap().0;
            let n = st.pulses.len() as int;
            let ms = data[i] as int + 256 * data[i + 1] as int;
            &&& forall|k: int| 0 <= k < n ==> #[trigger] s2.pulses[k] == st.pulses[k]
            &&& ms == 0 ==> s2.pulses.len() == n
            &&& ms > 0 ==> s2.pulses.len() == n + 1 && s2.pulses[n] == ((ms * 3500) as u32, st.level) && s2.force_low
        }),
{
}

/// How far the TAP extraction walk moves past each kind of block (sizes per
/// the TZX format: the ID byte, the block's fixed fields and its variable
/// part), which blocks stop it with an error, and that a standard speed
/// block contributes its payload and pause.
pub proof fn lemma_tap_walk_blocks(data: Seq<u8>, i: int)
    requires
        0 <= i < data.len(),
    ensures
        ({
            let id = data[i];
            let n = data.len() as int;
            let from = |k: int| tap_extract_from(data, k);
            &&& id == 0x10 && i + 5 <= n && i + 5 + le16(data, i + 3) <= n ==> tap_extract_from(data, i) == match from(
                i + 5 + le16(data, i + 3),
            ) {
                None => None,
                Some((b, p)) => Some((
                    seq![data.subrange(i + 5, i + 5 + le16(data, i + 3))] + b,
                    seq![if le16(data, i + 1) == 0 { 1u32 } else { (le16(data, i + 1) * 3500) as u32 }] + p,
                )),
            }
            &&& id == 0x11 && i + 19 <= n ==> from(i) == from(i + 19 + le24(data, i + 16))
            &&& (id == 0x12 || id == 0x2a) ==> from(i) == from(i + 5)
            &&& id == 0x13 && i + 1 < n ==> from(i) == from(i + 2 + 2 * data[i + 1] as int)
            &&& id == 0x14 && i + 11 <= n ==> from(i) == from(i + 11 + le24(data, i + 8))
            &&& (id == 0x20 || id == 0x24) ==> from(i) == from(i + 3)
            &&& (id == 0x21 || id == 0x30) && i + 1 < n ==> from(i) == from(i + 2 + data[i + 1] as int)
            &&& (id == 0x22 || id == 0x25) ==> from(i) == from(i + 1)
            &&& id == 0x2b ==> from(i) == from(i + 6)
            &&& id == 0x33 && i + 1 < n ==> from(i) == from(i + 2 + 3 * data[i + 1] as int)
            &&& id == 0x35 && i + 0x15 <= n ==> from(i) == from(i + 0x15 + le32(data, i + 0x11))
            &&& id == 0x5a ==> from(i) == from(i + 10)
            &&& (id == 0x15 || id == 0x18 || id == 0x19 || id == 0x23 || (0x26 <= id <= 0x28)) ==> from(i) is None
        }),
{
}

/// The TAP extraction walk skips an Archive Info block (`0x32`) whole: its ID,
/// its 16-bit little-endian length and that many bytes of text. Extracting
/// from the block gives what extracting from the data after it gives.
pub proof fn lemma_archive_info_skipped(data: Seq<u8>, i: int)
    requires
        0 <= i,
        i + 3 <= data.len(),
        data[i] == 0x32,
    ensures
        tap_extract_from(data, i) == tap_extract_from(data, i + 3 + data[i + 1] as int + 256 * data[i + 2] as int),
        tap_extract_err(data, i) == tap_extract_err(data, i + 3 + data[i + 1] as int + 256 * data[i + 2] as int),
{
}

} // verus!

//! EAR pulse emission: durations become (duration, level) edges.
//!
//! An edge normally takes the current level and then toggles it. After the
//! start of a tape or a pause, a "force low" flag makes the next edge low
//! regardless of the current level, and the one after it high.

use vstd::prelude::*;
use crate::tap::u8_bit;

verus! {

/// Pulse schedule under construction.
pub struct EarState {
    pub pulses: Seq<(u32, bool)>,
    pub level: bool,
    pub force_low: bool,
}

pub open spec fn ear(pulses: Seq<(u32, bool)>, level: bool, force_low: bool) -> EarState {
    EarState { pulses, level, force_low }
}

/// Durations paired with EAR levels that alternate, starting at `first`.
pub open spec fn alternate_from(durs: Seq<u32>, first: bool) -> Seq<(u32, bool)> {
    Seq::new(durs.len(), |k: int| (durs[k], if k % 2 == 0 { first } else { !first }))
}

/// Level of the first edge emitted from `st`.
pub open spec fn start_level(st: EarState) -> bool {
    if st.force_low { false } else { st.level }
}

/// Emit `durs` as consecutive edges.
pub open spec fn emit(st: EarState, durs: Seq<u32>) -> EarState {
    if durs.len() == 0 {
        st
    } else {
        let first = start_level(st);
        EarState {
            pulses: st.pulses + alternate_from(durs, first),
            level: if durs.len() % 2 == 0 { first } else { !first },
            force_low: false,
        }
    }
}

/// Emit a pause: one edge of `t` at the current level (ignoring `force_low`),
/// after which the next edge is forced low. A zero pause emits nothing.
pub open spec fn pause(st: EarState, t: u32) -> EarState {
    if t == 0 {
        st
    } else {
        EarState { pulses: st.pulses.push((t, st.level)), level: !st.level, force_low: true }
    }
}

/// Edge durations for the `bits` most significant bits of `b`, MSB first,
/// each bit as two equal half-periods.
pub open spec fn byte_durs(b: u8, bits: int, zero: u32, one: u32) -> Seq<u32> {
    Seq::new((2 * bits) as nat, |m: int| if u8_bit(b, (7 - m / 2) as u8) { one } else { zero })
}

/// Edge durations for a data payload: every byte contributes its eight bits,
/// except the last which contributes its `last_bits` most significant bits.
pub open spec fn data_durs(block: Seq<u8>, zero: u32, one: u32, last_bits: int) -> Seq<u32>
    decreases block.len(),
{
    if block.len() == 0 {
        Seq::empty()
    } else if block.len() == 1 {
        byte_durs(block[0], last_bits, zero, one)
    } else {
        byte_durs(block[0], 8, zero, one) + data_durs(block.skip(1), zero, one, last_bits)
    }
}

/// `n` copies of `d`.
pub open spec fn repeat(d: u32, n: int) -> Seq<u32> {
    Seq::new(n as nat, |k: int| d)
}

pub proof fn lemma_alternate_concat(a: Seq<u32>, b: Seq<u32>, first: bool)
    ensures
        alternate_from(a + b, first) =~= alternate_from(a, first) + alternate_from(
            b,
            if a.len() % 2 == 0 { first } else { !first },
        ),
{
    let n = a.len() as int;
    let second = if n % 2 == 0 { first } else { !first };
    assert forall|k: int| 0 <= k < a.len() + b.len() implies #[trigger] alternate_from(a + b, first)[k]
        == (alternate_from(a, first) + alternate_from(b, second))[k] by {
        if k >= n {
            assert((k - n) % 2 == 0 <==> (if n % 2 == 0 { k % 2 == 0 } else { k % 2 != 0 }));
        }
    }
}

/// Emitting `a` then `b` is emitting `a + b`.
pub proof fn lemma_emit_concat(st: EarState, a: Seq<u32>, b: Seq<u32>)
    ensures
        emit(emit(st, a), b) == emit(st, a + b),
{
    if a.len() == 0 {
        assert(a + b =~= b);
    } else if b.len() == 0 {
        assert(a + b =~= a);
    } else {
        lemma_alternate_concat(a, b, start_level(st));
        let s1 = emit(st, a);
        assert(s1.pulses + alternate_from(b, start_level(s1)) =~= st.pulses + alternate_from(
            a + b,
            start_level(st),
        ));
        assert(((a.len() + b.len()) as int) % 2 == 0 <==> ((a.len() as int) % 2 == (b.len() as int) % 2));
    }
}

pub proof fn lemma_byte_durs_step(b: u8, n: int, zero: u32, one: u32)
    requires
        0 <= n,
    ensures
        byte_durs(b, n + 1, zero, one) =~= byte_durs(b, n, zero, one) + repeat(
            if u8_bit(b, (7 - n) as u8) { one } else { zero },
            2,
        ),
{
    assert((2 * n) / 2 == n);
    assert((2 * n + 1) / 2 == n);
}

/// Data durations of `s + [x]`: full bytes for `s`, then the last byte.
pub proof fn lemma_data_durs_snoc(s: Seq<u8>, x: u8, zero: u32, one: u32, lb: int)
    ensures
        data_durs(s.push(x), zero, one, lb) =~= data_durs(s, zero, one, 8) + byte_durs(x, lb, zero, one),
    decreases s.len(),
{
    if s.len() == 0 {
        assert(s.push(x) =~= seq![x]);
    } else {
        lemma_data_durs_snoc(s.skip(1), x, zero, one, lb);
        assert(s.push(x).skip(1) =~= s.skip(1).push(x));
        if s.len() == 1 {
            assert(s.skip(1) =~= Seq::<u8>::empty());
        }
    }
}

/// Emit one edge.
pub fn push_pulse_tzx(pulses: &mut Vec<(u32, bool)>, level: &mut bool, force_low: &mut bool, duration: u32)
    ensures
        ear(final(pulses)@, *final(level), *final(force_low)) == emit(
            ear(old(pulses)@, *old(level), *old(force_low)),
            seq![duration],
        ),
{
    if *force_low {
        pulses.push((duration, false));
        *level = true;
        *force_low = false;
    } else {
        pulses.push((duration, *level));
        *level = !*level;
    }
    proof {
        let st = ear(old(pulses)@, *old(level), *old(force_low));
        let first = start_level(st);
        assert(alternate_from(seq![duration], first) =~= seq![(duration, first)]);
        assert(old(pulses)@ + seq![(duration, first)] =~= old(pulses)@.push((duration, first)));
        assert(seq![duration].len() % 2 == 1);
    }
}

/// Emit `n` edges of duration `d`.
pub fn push_repeat(pulses: &mut Vec<(u32, bool)>, level: &mut bool, force_low: &mut bool, d: u32, n: u32)
    ensures
        ear(final(pulses)@, *final(level), *final(force_low)) == emit(
            ear(old(pulses)@, *old(level), *old(force_low)),
            repeat(d, n as int),
        ),
{
    let ghost st0 = ear(pulses@, *level, *force_low);
    let mut i: u32 = 0;
    assert(repeat(d, 0) =~= Seq::<u32>::empty());
    while i < n
        invariant
            i <= n,
            ear(pulses@, *level, *force_low) == emit(st0, repeat(d, i as int)),
        decreases n - i,
    {
        push_pulse_tzx(pulses, level, force_low, d);
        proof {
            lemma_emit_concat(st0, repeat(d, i as int), seq![d]);
            assert(repeat(d, i as int) + seq![d] =~= repeat(d, i + 1));
        }
        i += 1;
    }
}

/// Emit the edges for the `bits` most significant bits of `byte`.
pub fn push_byte_bits(
    pulses: &mut Vec<(u32, bool)>,
    level: &mut bool,
    force_low: &mut bool,
    byte: u8,
    bits: u8,
    zero: u32,
    one: u32,
)
    requires
        bits <= 8,
    ensures
        ear(final(pulses)@, *final(level), *final(force_low)) == emit(
            ear(old(pulses)@, *old(level), *old(force_low)),
            byte_durs(byte, bits as int, zero, one),
        ),
{
    let ghost st0 = ear(pulses@, *level, *force_low);
    let mut n: u8 = 0;
    assert(byte_durs(byte, 0, zero, one) =~= Seq::<u32>::empty());
    while n < bits
        invariant
            n <= bits <= 8,
            ear(pulses@, *level, *force_low) == emit(st0, byte_durs(byte, n as int, zero, one)),
        decreases bits - n,
    {
        let bit = 7 - n;
        let len = if (byte >> bit) & 1u8 == 1u8 { one } else { zero };
        push_repeat(pulses, level, force_low, len, 2);
        proof {
            lemma_byte_durs_step(byte, n as int, zero, one);
            lemma_emit_concat(st0, byte_durs(byte, n as int, zero, one), repeat(len, 2));
        }
        n += 1;
    }
}

/// Emit a whole payload; the last byte contributes `last_bits` bits.
pub fn push_data(
    pulses: &mut Vec<(u32, bool)>,
    level: &mut bool,
    force_low: &mut bool,
    block: &[u8],
    zero: u32,
    one: u32,
    last_bits: u8,
)
    requires
        last_bits <= 8,
    ensures
        ear(final(pulses)@, *final(level), *final(force_low)) == emit(
            ear(old(pulses)@, *old(level), *old(force_low)),
            data_durs(block@, zero, one, last_bits as int),
        ),
{
    let ghost st0 = ear(pulses@, *level, *force_low);
    let n = block.len();
    let mut i: usize = 0;
    assert(data_durs(block@.take(0), zero, one, 8) =~= Seq::<u32>::empty());
    if n == 0 {
        return;
    }
    while i + 1 < n
        invariant
            0 <= i < n == block@.len(),
            ear(pulses@, *level, *force_low) == emit(st0, data_durs(block@.take(i as int), zero, one, 8)),
        decreases n - i,
    {
        push_byte_bits(pulses, level, force_low, block[i], 8, zero, one);
        proof {
            lemma_data_durs_snoc(block@.take(i as int), block@[i as int], zero, one, 8);
            assert(block@.take(i as int).push(block@[i as int]) =~= block@.take(i + 1));
            lemma_emit_concat(st0, data_durs(block@.take(i as int), zero, one, 8), byte_durs(block@[i as int], 8, zero, one));
        }
        i += 1;
    }
    push_byte_bits(pulses, level, force_low, block[i], last_bits, zero, one);
    proof {
        lemma_data_durs_snoc(block@.take(i as int), block@[i as int], zero, one, last_bits as int);
        assert(block@.take(i as int).push(block@[i as int]) =~= block@);
        lemma_emit_concat(st0, data_durs(block@.take(i as int), zero, one, 8), byte_durs(block@[i as int], last_bits as int, zero, one));
    }
}

/// Emit a pause edge (nothing for a zero pause).
pub fn push_pause(pulses: &mut Vec<(u32, bool)>, level: &mut bool, force_low: &mut bool, t: u32)
    ensures
        ear(final(pulses)@, *final(level), *final(force_low)) == pause(
            ear(old(pulses)@, *old(level), *old(force_low)),
            t,
        ),
{
    if t == 0 {
        return;
    }
    pulses.push((t, *level));
    *level = !*level;
    *force_low = true;
}

} // verus!

//! Generalized data blocks (`0x19`): symbol tables, the pilot stream of
//! (symbol, repeat count) entries and the packed data stream.

use vstd::prelude::*;
use crate::ear::{ear, emit, lemma_emit_concat, pause, push_pause, push_pulse_tzx, EarState};
use crate::msg::fmt_two_numbers;
use crate::tap::{copy_range, le16, u8_bit};
use crate::tzx_expand::{ms_to_t_exec, Expander};
use crate::tzx_frame::{le32, rd16, rd32};
use crate::tzx_spec::{
    alphabet_size, bits_per_symbol, bits_value, close_block, data_fold, emit_sym, es, gdb, ms_to_t,
    nonzero_prefix, pilot_fold, polarity, step_19, sym_repeat, symdef_at, symdefs, with_es, Exp, SymSpec,
    MAX_LOGICAL_BLOCKS, MAX_SCHEDULED_PULSES,
};

use crate::tzx_errors::{data_fold_err, err_19, gdb_err, pilot_fold_err, pulses_cap_text, symdef_text};

verus! {

/// A symbol definition: polarity flags and its pulse lengths.
pub struct SymDef {
    pub flags: u8,
    pub pulses: Vec<u16>,
}

impl SymDef {
    pub open spec fn spec(&self) -> SymSpec {
        SymSpec { flags: self.flags, pulses: self.pulses@ }
    }
}

pub open spec fn syms_spec(v: Seq<SymDef>) -> Seq<SymSpec> {
    v.map_values(|d: SymDef| d.spec())
}

/// Read `count` symbol definitions of `1 + 2 * maxp` bytes each from `off`.
pub fn read_symdefs(body: &[u8], off: usize, count: usize, maxp: usize) -> (r: Result<(Vec<SymDef>, usize), String>)
    requires
        off <= body@.len(),
        count <= 256,
        maxp <= 255,
    ensures
        match symdefs(body@, off as int, count as int, maxp as int) {
            Some((syms, next)) => r matches Ok((v, n)) && syms_spec(v@) == syms && n == next,
            None => r is Err,
        },
        r matches Err(m) ==> m@ == symdef_text(),
{
    let row: usize = 1 + 2 * maxp;
    assert(count * row <= 256 * 511) by (nonlinear_arith)
        requires
            count <= 256,
            row <= 511,
    ;
    if count > 0 && count * row > body.len() - off {
        return Err("truncated TZX GDB SYMDEF".to_owned());
    }
    let mut out: Vec<SymDef> = Vec::new();
    let mut cur: usize = off;
    let mut k: usize = 0;
    assert(0 * row == 0);
    while k < count
        invariant
            k <= count,
            count <= 256,
            maxp <= 255,
            row == 1 + 2 * maxp,
            count == 0 || off + count * row <= body@.len(),
            cur == off + k * row,
            out@.len() == k,
            forall|q: int| 0 <= q < k ==> #[trigger] out@[q].spec() == symdef_at(body@, off as int, maxp as int, q),
        decreases count - k,
    {
        assert(cur + row <= off + count * row) by (nonlinear_arith)
            requires
                cur == off + k * row,
                k < count,
                row >= 0,
        ;
        let flags = body[cur];
        let mut ps: Vec<u16> = Vec::new();
        let mut j: usize = 0;
        let blen = body.len();
        while j < maxp
            invariant
                j <= maxp,
                blen == body@.len(),
                cur + 1 + 2 * maxp <= body@.len(),
                ps@.len() == j,
                forall|q: int| 0 <= q < j ==> #[trigger] ps@[q] == le16(body@, cur + 1 + 2 * q) as u16,
            decreases maxp - j,
        {
            let w = rd16(body, cur + 1 + 2 * j);
            ps.push(w as u16);
            j += 1;
        }
        let d = SymDef { flags, pulses: ps };
        proof {
            let want = symdef_at(body@, off as int, maxp as int, k as int);
            assert(off + k * (1 + 2 * maxp) == cur);
            assert(d.pulses@ =~= want.pulses);
        }
        out.push(d);
        assert(cur + row == off + (k + 1) * row) by (nonlinear_arith)
            requires
                cur == off + k * row,
        ;
        cur = cur + row;
        k += 1;
    }
    proof {
        assert(syms_spec(out@) =~= Seq::new(count as nat, |q: int| symdef_at(body@, off as int, maxp as int, q)));
    }
    Ok((out, cur))
}

/// The leading non-zero pulse lengths are the prefix before the first zero.
pub proof fn lemma_nonzero_prefix(s: Seq<u16>, z: int)
    requires
        0 <= z <= s.len(),
        forall|j: int| 0 <= j < z ==> s[j] != 0,
        z == s.len() || s[z] == 0,
    ensures
        nonzero_prefix(s) == s.take(z),
    decreases s.len(),
{
    if s.len() == 0 || s[0] == 0 {
        assert(s.take(z) =~= Seq::<u16>::empty());
    } else {
        lemma_nonzero_prefix(s.skip(1), z - 1);
        assert(seq![s[0]] + s.skip(1).take(z - 1) =~= s.take(z));
    }
}

/// Emit one symbol: set its starting polarity, then its non-zero pulses.
pub fn emit_symbol(pulses: &mut Vec<(u32, bool)>, level: &mut bool, force_low: &mut bool, sym: &SymDef) -> (r: Result<(), String>)
    ensures
        match emit_sym(ear(old(pulses)@, *old(level), *old(force_low)), sym.spec()) {
            Some(e) => r is Ok && ear(final(pulses)@, *final(level), *final(force_low)) == e,
            None => r is Err,
        },
        r matches Err(m) ==> m@ == pulses_cap_text(),
{
    let flags = sym.flags;
    let p = flags & 3u8;
    assert(p == flags % 4) by (bit_vector)
        requires
            p == flags & 3u8,
    ;
    if p == 1 {
        *force_low = false;
        *level = !*level;
    } else if p == 2 {
        *force_low = false;
        *level = false;
    } else if p == 3 {
        *force_low = false;
        *level = true;
    }
    let ghost e1 = ear(pulses@, *level, *force_low);
    assert(e1 == polarity(ear(old(pulses)@, *old(level), *old(force_low)), flags));
    let n = sym.pulses.len();
    let mut z: usize = 0;
    while z < n && sym.pulses[z] != 0
        invariant
            z <= n,
            n == sym.pulses@.len(),
            forall|j: int| 0 <= j < z ==> sym.pulses@[j] != 0,
        decreases n - z,
    {
        z += 1;
    }
    proof {
        lemma_nonzero_prefix(sym.pulses@, z as int);
    }
    if z > 0 && (z > MAX_SCHEDULED_PULSES || pulses.len() > MAX_SCHEDULED_PULSES - z) {
        return Err("TZX pulse schedule exceeded 16777216 pulses (loop expansion?)".to_owned());
    }
    let ghost durs = Seq::new(z as nat, |k: int| sym.pulses@[k] as u32);
    let mut k: usize = 0;
    assert(durs.take(0) =~= Seq::<u32>::empty());
    while k < z
        invariant
            k <= z,
            z <= sym.pulses@.len(),
            durs == Seq::new(z as nat, |q: int| sym.pulses@[q] as u32),
            ear(pulses@, *level, *force_low) == emit(e1, durs.take(k as int)),
        decreases z - k,
    {
        let d = sym.pulses[k] as u32;
        push_pulse_tzx(pulses, level, force_low, d);
        proof {
            lemma_emit_concat(e1, durs.take(k as int), seq![d]);
            assert(durs.take(k as int) + seq![d] =~= durs.take(k + 1));
        }
        k += 1;
    }
    proof {
        let ps = nonzero_prefix(sym.spec().pulses);
        assert(durs.take(z as int) =~= Seq::new(ps.len(), |q: int| ps[q] as u32));
    }
    Ok(())
}

/// Once `k` repetitions fail, more repetitions fail too.
pub proof fn lemma_sym_repeat_none(e: EarState, sym: SymSpec, k: int, n: int)
    requires
        0 <= k <= n,
        sym_repeat(e, sym, k) is None,
    ensures
        sym_repeat(e, sym, n) is None,
    decreases n - k,
{
    if n > k {
        lemma_sym_repeat_none(e, sym, k, n - 1);
    }
}

/// Emit `sym` `reps` times.
pub fn emit_repeated(pulses: &mut Vec<(u32, bool)>, level: &mut bool, force_low: &mut bool, sym: &SymDef, reps: usize) -> (r: Result<(), String>)
    ensures
        match sym_repeat(ear(old(pulses)@, *old(level), *old(force_low)), sym.spec(), reps as int) {
            Some(e) => r is Ok && ear(final(pulses)@, *final(level), *final(force_low)) == e,
            None => r is Err,
        },
        r matches Err(m) ==> m@ == pulses_cap_text(),
{
    let ghost e0 = ear(pulses@, *level, *force_low);
    let mut q: usize = 0;
    while q < reps
        invariant
            q <= reps,
            e0 == ear(old(pulses)@, *old(level), *old(force_low)),
            sym_repeat(e0, sym.spec(), q as int) == Some(ear(pulses@, *level, *force_low)),
        decreases reps - q,
    {
        match emit_symbol(pulses, level, force_low, sym) {
            Err(e) => {
                proof {
                    lemma_sym_repeat_none(e0, sym.spec(), q + 1, reps as int);
                }
                return Err(e);
            },
            Ok(()) => {},
        }
        q += 1;
    }
    Ok(())
}

/// Once the first `k` pilot entries fail, longer streams fail too.
pub proof fn lemma_pilot_fold_none(e: EarState, body: Seq<u8>, off: int, k: int, n: int, syms: Seq<SymSpec>)
    requires
        0 <= k <= n,
        pilot_fold(e, body, off, k, syms) is None,
    ensures
        pilot_fold(e, body, off, n, syms) is None,
        pilot_fold_err(e, body, off, n, syms) == pilot_fold_err(e, body, off, k, syms),
    decreases n - k,
{
    if n > k {
        lemma_pilot_fold_none(e, body, off, k, n - 1, syms);
    }
}

/// The pilot stream: `totp` entries of (symbol, 16-bit repeat count) at `off`.
pub fn pilot_stream(
    pulses: &mut Vec<(u32, bool)>,
    level: &mut bool,
    force_low: &mut bool,
    body: &[u8],
    off: usize,
    totp: u64,
    syms: &Vec<SymDef>,
) -> (r: Result<(), String>)
    requires
        off + 3 * totp <= body@.len(),
    ensures
        match pilot_fold(ear(old(pulses)@, *old(level), *old(force_low)), body@, off as int, totp as int, syms_spec(syms@)) {
            Some(e) => r is Ok && ear(final(pulses)@, *final(level), *final(force_low)) == e,
            None => r is Err,
        },
        r matches Err(m) ==> m@ == pilot_fold_err(
            ear(old(pulses)@, *old(level), *old(force_low)),
            body@,
            off as int,
            totp as int,
            syms_spec(syms@),
        ),
{
    let ghost e0 = ear(pulses@, *level, *force_low);
    let ghost ss = syms_spec(syms@);
    let mut k: u64 = 0;
    let blen = body.len();
    while k < totp
        invariant
            k <= totp,
            blen == body@.len(),
            off + 3 * totp <= body@.len(),
            e0 == ear(old(pulses)@, *old(level), *old(force_low)),
            ss == syms_spec(syms@),
            pilot_fold(e0, body@, off as int, k as int, ss) == Some(ear(pulses@, *level, *force_low)),
        decreases totp - k,
    {
        let j: usize = off + 3 * (k as usize);
        let sym = body[j] as usize;
        if sym >= syms.len() {
            proof {
                lemma_pilot_fold_none(e0, body@, off as int, k + 1, totp as int, ss);
            }
            return Err(fmt_two_numbers("TZX GDB pilot symbol ", sym as u64, " out of range (", syms.len() as u64, ")"));
        }
        let reps = rd16(body, j + 1);
        proof {
            assert(ss[sym as int] == syms@[sym as int].spec());
        }
        match emit_repeated(pulses, level, force_low, &syms[sym], reps) {
            Err(e) => {
                proof {
                    lemma_pilot_fold_none(e0, body@, off as int, k + 1, totp as int, ss);
                }
                return Err(e);
            },
            Ok(()) => {},
        }
        k += 1;
    }
    Ok(())
}

/// Powers of two.
pub open spec fn p2(t: int) -> int
    decreases t,
{
    if t <= 0 { 1 } else { 2 * p2(t - 1) }
}

pub proof fn lemma_p2_byte(t: int)
    requires
        0 <= t <= 8,
    ensures
        1 <= p2(t) <= 256,
{
    reveal_with_fuel(p2, 9);
    if t == 0 {} else if t == 1 {} else if t == 2 {} else if t == 3 {} else if t == 4 {}
    else if t == 5 {} else if t == 6 {} else if t == 7 {} else {}
}

/// Once the first `k` bits fail, more bits fail too.
pub proof fn lemma_bits_value_none(stream: Seq<u8>, start: int, k: int, n: int)
    requires
        0 <= k <= n,
        bits_value(stream, start, k) is None,
    ensures
        bits_value(stream, start, n) is None,
    decreases n - k,
{
    if n > k {
        lemma_bits_value_none(stream, start, k, n - 1);
    }
}

/// Once the first `k` data symbols fail, longer streams fail too.
pub proof fn lemma_data_fold_none(e: EarState, stream: Seq<u8>, nb: int, k: int, n: int, syms: Seq<SymSpec>)
    requires
        0 <= k <= n,
        data_fold(e, stream, nb, k, syms) is None,
    ensures
        data_fold(e, stream, nb, n, syms) is None,
        data_fold_err(e, stream, nb, n, syms) == data_fold_err(e, stream, nb, k, syms),
    decreases n - k,
{
    if n > k {
        lemma_data_fold_none(e, stream, nb, k, n - 1, syms);
    }
}

/// Value of the `nb` bits of `stream` from bit `start`, MSB first.
pub fn read_bits(stream: &[u8], start: u64, nb: usize) -> (r: Option<u64>)
    requires
        nb <= 8,
        start < 0x1_0000_0000_0000,
    ensures
        match bits_value(stream@, start as int, nb as int) {
            Some(v) => r == Some(v as u64) && 0 <= v < 256,
            None => r is None,
        },
{
    let mut v: u64 = 0;
    let mut t: usize = 0;
    proof {
        lemma_p2_byte(0);
    }
    while t < nb
        invariant
            t <= nb,
            nb <= 8,
            start < 0x1_0000_0000_0000,
            bits_value(stream@, start as int, t as int) == Some(v as int),
            v < p2(t as int),
        decreases nb - t,
    {
        proof {
            lemma_p2_byte(t as int);
            lemma_p2_byte(t + 1);
        }
        let b: u64 = start + t as u64;
        let byte_i = b / 8;
        if byte_i >= stream.len() as u64 {
            proof {
                lemma_bits_value_none(stream@, start as int, t + 1, nb as int);
            }
            return None;
        }
        let x = stream[byte_i as usize];
        let sh: u8 = (7 - b % 8) as u8;
        let bit = (x >> sh) & 1u8;
        assert(bit == 0u8 || bit == 1u8) by (bit_vector)
            requires
                bit == (x >> sh) & 1u8,
        ;
        assert(u8_bit(x, sh) <==> bit == 1u8);
        v = 2 * v + bit as u64;
        t += 1;
    }
    proof {
        lemma_p2_byte(nb as int);
    }
    Some(v)
}

/// Bits per data symbol for an alphabet of `a` symbols.
pub fn bits_for_alphabet(a: usize) -> (r: usize)
    requires
        a <= 256,
    ensures
        r == bits_per_symbol(a as int),
        r <= 8,
{
    if a <= 1 { 0 } else if a <= 2 { 1 } else if a <= 4 { 2 } else if a <= 8 { 3 } else if a <= 16 { 4 }
    else if a <= 32 { 5 } else if a <= 64 { 6 } else if a <= 128 { 7 } else { 8 }
}

/// The data stream: `totd` symbols of `nb` bits each.
pub fn data_stream(
    pulses: &mut Vec<(u32, bool)>,
    level: &mut bool,
    force_low: &mut bool,
    stream: &[u8],
    nb: usize,
    totd: u64,
    syms: &Vec<SymDef>,
) -> (r: Result<(), String>)
    requires
        nb <= 8,
        totd < 0x1_0000_0000,
    ensures
        match data_fold(ear(old(pulses)@, *old(level), *old(force_low)), stream@, nb as int, totd as int, syms_spec(syms@)) {
            Some(e) => r is Ok && ear(final(pulses)@, *final(level), *final(force_low)) == e,
            None => r is Err,
        },
        r matches Err(m) ==> m@ == data_fold_err(
            ear(old(pulses)@, *old(level), *old(force_low)),
            stream@,
            nb as int,
            totd as int,
            syms_spec(syms@),
        ),
{
    let ghost e0 = ear(pulses@, *level, *force_low);
    let ghost ss = syms_spec(syms@);
    let mut k: u64 = 0;
    let mut bit_i: u64 = 0;
    while k < totd
        invariant
            k <= totd,
            totd < 0x1_0000_0000,
            nb <= 8,
            bit_i == k * nb,
            e0 == ear(old(pulses)@, *old(level), *old(force_low)),
            ss == syms_spec(syms@),
            data_fold(e0, stream@, nb as int, k as int, ss) == Some(ear(pulses@, *level, *force_low)),
        decreases totd - k,
    {
        assert(bit_i + nb == (k + 1) * nb && bit_i < 0x1_0000_0000_0000 && ((k + 1) - 1) * nb == bit_i) by (nonlinear_arith)
            requires
                bit_i == k * nb,
                k < totd,
                totd < 0x1_0000_0000,
                nb <= 8,
        ;
        let v = match read_bits(stream, bit_i, nb) {
            None => {
                proof {
                    lemma_data_fold_none(e0, stream@, nb as int, k + 1, totd as int, ss);
                }
                return Err("truncated TZX GDB data stream".to_owned());
            },
            Some(v) => v,
        };
        proof {
            assert(bits_value(stream@, (k + 1 - 1) * nb, nb as int) == Some(v as int));
            assert(ss.len() == syms@.len());
        }
        if v >= syms.len() as u64 {
            proof {
                lemma_data_fold_none(e0, stream@, nb as int, k + 1, totd as int, ss);
            }
            return Err(fmt_two_numbers("TZX GDB data symbol ", v, " out of range (", syms.len() as u64, ")"));
        }
        proof {
            assert(ss[v as int] == syms@[v as int].spec());
        }
        match emit_symbol(pulses, level, force_low, &syms[v as usize]) {
            Err(e) => {
                proof {
                    lemma_data_fold_none(e0, stream@, nb as int, k + 1, totd as int, ss);
                }
                return Err(e);
            },
            Ok(()) => {},
        }
        bit_i = bit_i + nb as u64;
        k += 1;
    }
    Ok(())
}

/// Alphabet size as stored (`0` = 256), or 0 when the stream is absent.
pub fn alphabet_exec(raw: u8, present: bool) -> (r: usize)
    ensures
        r == alphabet_size(raw, present),
        r <= 256,
{
    if !present { 0 } else if raw == 0 { 256 } else { raw as usize }
}

/// A generalized data block body (from its pause word on).
pub fn push_generalized(pulses: &mut Vec<(u32, bool)>, level: &mut bool, force_low: &mut bool, body: &[u8]) -> (r: Result<(), String>)
    requires
        14 <= body@.len(),
    ensures
        match gdb(ear(old(pulses)@, *old(level), *old(force_low)), body@) {
            Some(e) => r is Ok && ear(final(pulses)@, *final(level), *final(force_low)) == e,
            None => r is Err,
        },
        r matches Err(m) ==> m@ == gdb_err(ear(old(pulses)@, *old(level), *old(force_low)), body@),
{
    let pause_ms = rd16(body, 0);
    let totp = rd32(body, 2);
    let npp = body[6] as usize;
    let totd = rd32(body, 8);
    let npd = body[12] as usize;
    let asp = alphabet_exec(body[7], totp > 0);
    let asd = alphabet_exec(body[13], totd > 0);
    let (psyms, off1) = if totp > 0 {
        match read_symdefs(body, 14, asp, npp) {
            Err(e) => { return Err(e); },
            Ok(x) => x,
        }
    } else {
        (Vec::new(), 14usize)
    };
    proof {
        if totp == 0 {
            assert(syms_spec(psyms@) =~= Seq::<SymSpec>::empty());
        }
    }
    if totp > 0 {
        if 3 * totp > (body.len() - off1) as u64 {
            return Err("truncated TZX GDB pilot stream".to_owned());
        }
        match pilot_stream(pulses, level, force_low, body, off1, totp, &psyms) {
            Err(e) => { return Err(e); },
            Ok(()) => {},
        }
    }
    let off2: usize = if totp > 0 { off1 + 3 * (totp as usize) } else { off1 };
    let (dsyms, off3) = if totd > 0 {
        match read_symdefs(body, off2, asd, npd) {
            Err(e) => { return Err(e); },
            Ok(x) => x,
        }
    } else {
        (Vec::new(), off2)
    };
    if totd > 0 {
        let nb = bits_for_alphabet(asd);
        if nb == 0 && totd > 1 {
            return Err("TZX GDB data stream with ASD<=1 and TOTD>1 is invalid".to_owned());
        }
        let stream = copy_range(body, off3, body.len());
        assert(stream@ =~= body@.skip(off3 as int));
        match data_stream(pulses, level, force_low, stream.as_slice(), nb, totd, &dsyms) {
            Err(e) => { return Err(e); },
            Ok(()) => {},
        }
    }
    push_pause(pulses, level, force_low, ms_to_t_exec(pause_ms));
    Ok(())
}

impl Expander {
    pub(crate) fn block_19(&mut self, data: &[u8], bi: usize, i: usize) -> (r: Result<usize, String>)
        requires
            i <= data@.len(),
            bi < usize::MAX,
            old(self).inv(),
        ensures
            final(self).inv(),
            r matches Err(m) ==> m@ == err_19(data@, old(self).st(), i as int),
            match step_19(data@, old(self).st(), bi as int, i as int) {
                Some((s, nb)) => r == Ok::<usize, String>(nb as usize) && final(self).st() == s,
                None => r is Err,
            },
    {
        let n = data.len();
        if n - i < 4 {
            return Err("truncated 0x19".to_owned());
        }
        let body_len = rd32(data, i);
        if body_len < 14 || body_len > (n - (i + 4)) as u64 {
            return Err("truncated 0x19 body".to_owned());
        }
        if self.skip != 0 {
            return Ok(bi + 1);
        }
        if self.starts.len() >= MAX_LOGICAL_BLOCKS {
            return Err("TZX logical block count exceeded 1048576 (loop expansion?)".to_owned());
        }
        let body = copy_range(data, i + 4, i + 4 + body_len as usize);
        assert(body@ =~= data@.subrange(i + 4, i + 4 + le32(data@, i as int)));
        let np = self.pulses.len();
        self.starts.push(np);
        let ghost s = self.st();
        proof {
            assert(s == Exp { starts: old(self).st().starts.push(old(self).st().pulses.len() as usize), ..old(self).st() });
        }
        match push_generalized(&mut self.pulses, &mut self.level, &mut self.force_low, body.as_slice()) {
            Err(e) => { return Err(e); },
            Ok(()) => {},
        }
        proof {
            assert(self.st() == with_es(s, ear(self.pulses@, self.level, self.force_low)));
        }
        if self.pulses.len() > MAX_SCHEDULED_PULSES {
            return Err("TZX pulse schedule exceeded 16777216 pulses (loop expansion?)".to_owned());
        }
        Ok(bi + 1)
    }
}

} // verus!

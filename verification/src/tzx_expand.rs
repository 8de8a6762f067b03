//! Walking TZX blocks into an EAR pulse schedule.

use vstd::prelude::*;
use crate::ear::{
    data_durs, ear, emit, lemma_emit_concat, pause, push_data, push_pause, push_pulse_tzx, push_repeat,
    repeat,
};
use crate::tap::{
    copy_range, le16, pilot_count, BIT0_T, BIT1_T, PAUSE_T, PILOT_DATA_PULSES, PILOT_HEADER_PULSES,
    PILOT_PULSE_T, SYNC1_T, SYNC2_T,
};
use crate::tzx_frame::{le24, rd16, rd24, rds16, s16};
use crate::msg::{fmt_hex_id, fmt_out_of_range, fmt_prefixed, fmt_two_numbers};
use crate::ear::EarState;
use crate::tzx_frame::le32;
use crate::tzx_frame::rd32;
use crate::tap::u8_bit;
use crate::tzx_spec::{
    bump, call_offsets, close_block, es, exp_init, jump, ms_to_t, open_block, pause_pulses, pulse_list,
    pure_data, pure_data_est, resolve, step_10, step_11, step_12, step_13, step_14, step_20, step_23,
    step_24, step_25, step_26, step_27, step_28, step_2b, step_skip, used_bits_norm, with_es, CallSpec,
    Exp, push_abs, abs_fold, sample_levels, direct, direct_est, step_15, rle_from, csw_raw, csw_plain_cap,
    sat_mul_u32, csw_durs, csw, csw_pulses, step_18, sat_add_u32,
    MAX_CONTROL_TRANSFERS, MAX_LOGICAL_BLOCKS, MAX_LOOP_REPLAYS, MAX_SCHEDULED_PULSES,
};

use crate::tzx_errors::{
    cap_err, err_10, err_11, err_12, err_13, err_14, err_15, err_18, err_20, err_23, err_24, err_25, err_26,
    err_27, err_28, pulses_cap_text, resolve_err, transfers_cap_text, csw_err, csw_pulses_err, inflate_failed_prefix, reports,
};

verus! {

/// An open Call sequence.
pub struct CallFrame {
    pub call_bi: usize,
    pub return_bi: usize,
    pub offsets: Vec<i16>,
    pub next_call: usize,
}

impl CallFrame {
    pub open spec fn spec(&self) -> CallSpec {
        CallSpec {
            call_bi: self.call_bi as int,
            return_bi: self.return_bi as int,
            offsets: self.offsets@,
            next_call: self.next_call as int,
        }
    }
}

/// Expansion state.
pub struct Expander {
    pub pulses: Vec<(u32, bool)>,
    pub level: bool,
    pub force_low: bool,
    pub starts: Vec<usize>,
    pub loops: Vec<(usize, u16)>,
    pub calls: Vec<CallFrame>,
    pub skip: usize,
    pub replays: usize,
    pub transfers: usize,
}

/// T-states of `ms` milliseconds.
pub fn ms_to_t_exec(ms: usize) -> (t: u32)
    requires
        ms < 65536,
    ensures
        t == ms_to_t(ms as int),
        t as int == ms * 3500,
{
    (ms as u32) * 3500
}

pub fn used_bits_exec(ub: u8) -> (r: u8)
    ensures
        r == used_bits_norm(ub),
        1 <= r <= 8,
{
    if ub == 0 || ub > 8 { 8 } else { ub }
}

impl Expander {
    pub open spec fn st(&self) -> Exp {
        Exp {
            pulses: self.pulses@,
            level: self.level,
            force_low: self.force_low,
            starts: self.starts@,
            loops: self.loops@,
            calls: self.calls@.map_values(|f: CallFrame| f.spec()),
            skip: self.skip as int,
            replays: self.replays as int,
            transfers: self.transfers as int,
        }
    }

    pub open spec fn inv(&self) -> bool {
        &&& self.replays <= MAX_LOOP_REPLAYS
        &&& self.transfers <= MAX_CONTROL_TRANSFERS
    }

    pub fn new() -> (e: Self)
        ensures
            e.st() == exp_init(),
            e.inv(),
    {
        let e = Expander {
            pulses: Vec::new(),
            level: false,
            force_low: true,
            starts: Vec::new(),
            loops: Vec::new(),
            calls: Vec::new(),
            skip: 0,
            replays: 0,
            transfers: 0,
        };
        assert(e.st().calls =~= Seq::<CallSpec>::empty());
        e
    }

    fn open_block(&mut self, add: u64) -> (r: Result<(), String>)
        ensures
            r is Ok <==> open_block(old(self).st(), add as int) is Some,
            r matches Err(m) ==> m@ == cap_err(old(self).st()),
            r is Ok ==> final(self).st() == open_block(old(self).st(), add as int).unwrap(),
            final(self).replays == old(self).replays,
            final(self).transfers == old(self).transfers,
            final(self).calls@ == old(self).calls@,
    {
        if self.starts.len() >= MAX_LOGICAL_BLOCKS {
            return Err("TZX logical block count exceeded 1048576 (loop expansion?)".to_owned());
        }
        if add > MAX_SCHEDULED_PULSES as u64 || self.pulses.len() > MAX_SCHEDULED_PULSES - add as usize {
            return Err("TZX pulse schedule exceeded 16777216 pulses (loop expansion?)".to_owned());
        }
        let n = self.pulses.len();
        self.starts.push(n);
        proof {
            assert(self.st().calls == old(self).st().calls);
        }
        Ok(())
    }

    fn close_block(&self) -> (r: Result<(), String>)
        ensures
            r is Ok <==> close_block(self.st()) is Some,
            r matches Err(m) ==> m@ == pulses_cap_text(),
    {
        if self.pulses.len() > MAX_SCHEDULED_PULSES {
            return Err("TZX pulse schedule exceeded 16777216 pulses (loop expansion?)".to_owned());
        }
        Ok(())
    }

    #[verifier::spinoff_prover]
    #[verifier::rlimit(40)]
    pub(crate) fn block_10(&mut self, data: &[u8], bi: usize, i: usize) -> (r: Result<usize, String>)
        requires
            i <= data@.len(),
            bi < usize::MAX,
            old(self).inv(),
        ensures
            final(self).inv(),
            r matches Err(m) ==> m@ == err_10(data@, old(self).st(), i as int),
            match step_10(data@, old(self).st(), bi as int, i as int) {
                Some((s, nb)) => r == Ok::<usize, String>(nb as usize) && final(self).st() == s,
                None => r is Err,
            },
    {
        let n = data.len();
        if n - i < 4 {
            return Err("truncated 0x10".to_owned());
        }
        let pause_ms = rd16(data, i);
        let len = rd16(data, i + 2);
        if n - (i + 4) < len {
            return Err("0x10 data truncated".to_owned());
        }
        if self.skip != 0 {
            return Ok(bi + 1);
        }
        let block = copy_range(data, i + 4, i + 4 + len);
        let pilots = if len > 0 && block[0] != 0 { PILOT_DATA_PULSES } else { PILOT_HEADER_PULSES };
        let add = pilots as u64 + 2 + 16 * (len as u64) + 1;
        match self.open_block(add) {
            Err(e) => { return Err(e); },
            Ok(()) => {},
        }
        let ghost s = self.st();
        let t = if pause_ms == 0 { PAUSE_T } else { ms_to_t_exec(pause_ms) };
        push_repeat(&mut self.pulses, &mut self.level, &mut self.force_low, PILOT_PULSE_T, pilots);
        push_pulse_tzx(&mut self.pulses, &mut self.level, &mut self.force_low, SYNC1_T);
        push_pulse_tzx(&mut self.pulses, &mut self.level, &mut self.force_low, SYNC2_T);
        push_data(&mut self.pulses, &mut self.level, &mut self.force_low, block.as_slice(), BIT0_T, BIT1_T, 8);
        let ghost before_pause = ear(self.pulses@, self.level, self.force_low);
        push_pause(&mut self.pulses, &mut self.level, &mut self.force_low, t);
        proof {
            let bl = block@;
            let a = repeat(PILOT_PULSE_T, pilots as int);
            let d = data_durs(bl, BIT0_T, BIT1_T, 8);
            let st0 = es(s);
            lemma_emit_concat(st0, a, seq![SYNC1_T]);
            lemma_emit_concat(st0, a + seq![SYNC1_T], seq![SYNC2_T]);
            lemma_emit_concat(st0, a + seq![SYNC1_T] + seq![SYNC2_T], d);
            assert(a + seq![SYNC1_T] + seq![SYNC2_T] + d =~= repeat(PILOT_PULSE_T, pilot_count(bl))
                + seq![SYNC1_T, SYNC2_T] + d);
            assert(bl =~= data@.subrange(i + 4, i + 4 + len));
            assert(self.st() == with_es(s, pause(emit(st0, repeat(PILOT_PULSE_T, pilot_count(bl))
                + seq![SYNC1_T, SYNC2_T] + d), t)));
        }
        match self.close_block() {
            Err(e) => { return Err(e); },
            Ok(()) => {},
        }
        Ok(bi + 1)
    }

    #[verifier::spinoff_prover]
    #[verifier::rlimit(40)]
    pub(crate) fn block_11(&mut self, data: &[u8], bi: usize, i: usize) -> (r: Result<usize, String>)
        requires
            i <= data@.len(),
            bi < usize::MAX,
            old(self).inv(),
        ensures
            final(self).inv(),
            r matches Err(m) ==> m@ == err_11(data@, old(self).st(), i as int),
            match step_11(data@, old(self).st(), bi as int, i as int) {
                Some((s, nb)) => r == Ok::<usize, String>(nb as usize) && final(self).st() == s,
                None => r is Err,
            },
    {
        let n = data.len();
        if n - i < 18 {
            return Err("truncated 0x11".to_owned());
        }
        let pilot = rd16(data, i) as u32;
        let sync1 = rd16(data, i + 2) as u32;
        let sync2 = rd16(data, i + 4) as u32;
        let zero = rd16(data, i + 6) as u32;
        let one = rd16(data, i + 8) as u32;
        let pp = rd16(data, i + 10);
        let ub = data[i + 12];
        let pause_ms = rd16(data, i + 13);
        let len = rd24(data, i + 15);
        if n - (i + 18) < len {
            return Err("0x11 data truncated".to_owned());
        }
        if self.skip != 0 {
            return Ok(bi + 1);
        }
        let block = copy_range(data, i + 18, i + 18 + len);
        let ubn = used_bits_exec(ub);
        let t = ms_to_t_exec(pause_ms);
        let est: u64 = (if len == 0 { 0 } else { (len as u64 - 1) * 16 + 2 * (ubn as u64) }) + (if t > 0 { 1 } else { 0 });
        match self.open_block(pp as u64 + 2 + est) {
            Err(e) => { return Err(e); },
            Ok(()) => {},
        }
        let ghost s = self.st();
        push_repeat(&mut self.pulses, &mut self.level, &mut self.force_low, pilot, pp as u32);
        push_pulse_tzx(&mut self.pulses, &mut self.level, &mut self.force_low, sync1);
        push_pulse_tzx(&mut self.pulses, &mut self.level, &mut self.force_low, sync2);
        push_data(&mut self.pulses, &mut self.level, &mut self.force_low, block.as_slice(), zero, one, ubn);
        push_pause(&mut self.pulses, &mut self.level, &mut self.force_low, t);
        proof {
            let a = repeat(pilot, pp as int);
            let st0 = es(s);
            lemma_emit_concat(st0, a, seq![sync1]);
            lemma_emit_concat(st0, a + seq![sync1], seq![sync2]);
            assert(a + seq![sync1] + seq![sync2] =~= a + seq![sync1, sync2]);
            assert(block@ =~= data@.subrange(i + 18, i + 18 + len));
            assert(self.st() == with_es(s, pure_data(emit(st0, a + seq![sync1, sync2]), block@, zero, one, ub, pause_ms as int)));
        }
        match self.close_block() {
            Err(e) => { return Err(e); },
            Ok(()) => {},
        }
        Ok(bi + 1)
    }

    pub(crate) fn block_12(&mut self, data: &[u8], bi: usize, i: usize) -> (r: Result<usize, String>)
        requires
            i <= data@.len(),
            bi < usize::MAX,
            old(self).inv(),
        ensures
            final(self).inv(),
            r matches Err(m) ==> m@ == err_12(data@, old(self).st(), i as int),
            match step_12(data@, old(self).st(), bi as int, i as int) {
                Some((s, nb)) => r == Ok::<usize, String>(nb as usize) && final(self).st() == s,
                None => r is Err,
            },
    {
        if data.len() - i < 4 {
            return Err("truncated 0x12".to_owned());
        }
        if self.skip != 0 {
            return Ok(bi + 1);
        }
        let len = rd16(data, i) as u32;
        let count = rd16(data, i + 2);
        match self.open_block(count as u64) {
            Err(e) => { return Err(e); },
            Ok(()) => {},
        }
        push_repeat(&mut self.pulses, &mut self.level, &mut self.force_low, len, count as u32);
        match self.close_block() {
            Err(e) => { return Err(e); },
            Ok(()) => {},
        }
        Ok(bi + 1)
    }

    #[verifier::spinoff_prover]
    #[verifier::rlimit(40)]
    pub(crate) fn block_13(&mut self, data: &[u8], bi: usize, i: usize) -> (r: Result<usize, String>)
        requires
            i <= data@.len(),
            bi < usize::MAX,
            old(self).inv(),
        ensures
            final(self).inv(),
            r matches Err(m) ==> m@ == err_13(data@, old(self).st(), i as int),
            match step_13(data@, old(self).st(), bi as int, i as int) {
                Some((s, nb)) => r == Ok::<usize, String>(nb as usize) && final(self).st() == s,
                None => r is Err,
            },
    {
        if i >= data.len() {
            return Err("truncated 0x13".to_owned());
        }
        let np = data[i] as usize;
        if data.len() - (i + 1) < 2 * np {
            return Err("0x13 pulses truncated".to_owned());
        }
        if self.skip != 0 {
            return Ok(bi + 1);
        }
        match self.open_block(np as u64) {
            Err(e) => { return Err(e); },
            Ok(()) => {},
        }
        let ghost s = self.st();
        let mut k: usize = 0;
        let dl = data.len();
        assert(pulse_list(data@, i as int, 0) =~= Seq::<u32>::empty());
        while k < np
            invariant
                dl == data@.len(),
                k <= np,
                np == data@[i as int],
                i + 1 + 2 * np <= data@.len(),
                ear(self.pulses@, self.level, self.force_low) == emit(es(s), pulse_list(data@, i as int, k as int)),
                self.starts@ == s.starts,
                self.loops@ == s.loops,
                self.calls@ == old(self).calls@,
                self.skip == s.skip,
                self.replays == s.replays,
                self.transfers == s.transfers,
                self.replays == old(self).replays,
                self.transfers == old(self).transfers,
            decreases np - k,
        {
            let len = rd16(data, i + 1 + 2 * k) as u32;
            push_pulse_tzx(&mut self.pulses, &mut self.level, &mut self.force_low, len);
            proof {
                lemma_emit_concat(es(s), pulse_list(data@, i as int, k as int), seq![len]);
                assert(pulse_list(data@, i as int, k as int) + seq![len] =~= pulse_list(data@, i as int, k + 1));
            }
            k += 1;
        }
        proof {
            assert(self.st() == with_es(s, emit(es(s), pulse_list(data@, i as int, np as int))));
        }
        match self.close_block() {
            Err(e) => { return Err(e); },
            Ok(()) => {},
        }
        Ok(bi + 1)
    }

    #[verifier::spinoff_prover]
    #[verifier::rlimit(40)]
    pub(crate) fn block_14(&mut self, data: &[u8], bi: usize, i: usize) -> (r: Result<usize, String>)
        requires
            i <= data@.len(),
            bi < usize::MAX,
            old(self).inv(),
        ensures
            final(self).inv(),
            r matches Err(m) ==> m@ == err_14(data@, old(self).st(), i as int),
            match step_14(data@, old(self).st(), bi as int, i as int) {
                Some((s, nb)) => r == Ok::<usize, String>(nb as usize) && final(self).st() == s,
                None => r is Err,
            },
    {
        let n = data.len();
        if n - i < 10 {
            return Err("truncated 0x14".to_owned());
        }
        let zero = rd16(data, i) as u32;
        let one = rd16(data, i + 2) as u32;
        let ub = data[i + 4];
        let pause_ms = rd16(data, i + 5);
        let len = rd24(data, i + 7);
        if n - (i + 10) < len {
            return Err("0x14 data truncated".to_owned());
        }
        if self.skip != 0 {
            return Ok(bi + 1);
        }
        let block = copy_range(data, i + 10, i + 10 + len);
        let ubn = used_bits_exec(ub);
        let t = ms_to_t_exec(pause_ms);
        let est: u64 = (if len == 0 { 0 } else { (len as u64 - 1) * 16 + 2 * (ubn as u64) }) + (if t > 0 { 1 } else { 0 });
        match self.open_block(est) {
            Err(e) => { return Err(e); },
            Ok(()) => {},
        }
        let ghost s = self.st();
        push_data(&mut self.pulses, &mut self.level, &mut self.force_low, block.as_slice(), zero, one, ubn);
        push_pause(&mut self.pulses, &mut self.level, &mut self.force_low, t);
        proof {
            assert(block@ =~= data@.subrange(i + 10, i + 10 + len));
            assert(self.st() == with_es(s, pure_data(es(s), block@, zero, one, ub, pause_ms as int)));
        }
        match self.close_block() {
            Err(e) => { return Err(e); },
            Ok(()) => {},
        }
        Ok(bi + 1)
    }

    pub(crate) fn block_20(&mut self, data: &[u8], bi: usize, i: usize) -> (r: Result<usize, String>)
        requires
            i <= data@.len(),
            bi < usize::MAX,
            old(self).inv(),
        ensures
            final(self).inv(),
            r matches Err(m) ==> m@ == err_20(data@, old(self).st(), i as int),
            match step_20(data@, old(self).st(), bi as int, i as int) {
                Some((s, nb)) => r == Ok::<usize, String>(nb as usize) && final(self).st() == s,
                None => r is Err,
            },
    {
        if data.len() - i < 2 {
            return Err("truncated 0x20".to_owned());
        }
        if self.skip != 0 {
            return Ok(bi + 1);
        }
        let t = ms_to_t_exec(rd16(data, i));
        if self.starts.len() >= MAX_LOGICAL_BLOCKS {
            return Err("TZX logical block count exceeded 1048576 (loop expansion?)".to_owned());
        }
        if t > 0 && self.pulses.len() >= MAX_SCHEDULED_PULSES {
            return Err("TZX pulse schedule exceeded 16777216 pulses (loop expansion?)".to_owned());
        }
        let n = self.pulses.len();
        self.starts.push(n);
        push_pause(&mut self.pulses, &mut self.level, &mut self.force_low, t);
        match self.close_block() {
            Err(e) => { return Err(e); },
            Ok(()) => {},
        }
        Ok(bi + 1)
    }

    pub(crate) fn block_2b(&mut self, data: &[u8], bi: usize, i: usize) -> (r: Result<usize, String>)
        requires
            i <= data@.len(),
            bi < usize::MAX,
            old(self).inv(),
        ensures
            final(self).inv(),
            r matches Err(m) ==> m@ == "truncated 0x2b"@,
            match step_2b(data@, old(self).st(), bi as int, i as int) {
                Some((s, nb)) => r == Ok::<usize, String>(nb as usize) && final(self).st() == s,
                None => r is Err,
            },
    {
        if data.len() - i < 5 {
            return Err("truncated 0x2b".to_owned());
        }
        if self.skip == 0 {
            self.force_low = false;
            self.level = data[i + 4] != 0;
        }
        Ok(bi + 1)
    }

    fn count_transfer(&mut self) -> (r: Result<(), String>)
        requires
            old(self).inv(),
        ensures
            final(self).inv(),
            r matches Err(m) ==> m@ == transfers_cap_text(),
            r is Ok <==> bump(old(self).st()) is Some,
            r is Ok ==> final(self).st() == bump(old(self).st()).unwrap(),
            final(self).calls@ == old(self).calls@,
    {
        if self.transfers >= MAX_CONTROL_TRANSFERS {
            return Err("TZX control-flow transfer count exceeded 1048576".to_owned());
        }
        self.transfers += 1;
        Ok(())
    }

    pub(crate) fn block_23(&mut self, data: &[u8], bi: usize, i: usize, count: usize) -> (r: Result<usize, String>)
        requires
            i <= data@.len(),
            bi < usize::MAX,
            old(self).inv(),
        ensures
            final(self).inv(),
            r matches Err(m) ==> m@ == err_23(data@, old(self).st(), bi as int, i as int, count as int),
            match step_23(data@, old(self).st(), bi as int, i as int, count as int) {
                Some((s, nb)) => r == Ok::<usize, String>(nb as usize) && final(self).st() == s,
                None => r is Err,
            },
    {
        if data.len() - i < 2 {
            return Err("truncated 0x23".to_owned());
        }
        let rel = rds16(data, i);
        if self.skip != 0 {
            return Ok(bi + 1);
        }
        match self.count_transfer() {
            Err(e) => { return Err(e); },
            Ok(()) => {},
        }
        resolve_exec(bi, rel, count, JumpKind::Jump)
    }

    pub(crate) fn block_24(&mut self, data: &[u8], bi: usize, i: usize) -> (r: Result<usize, String>)
        requires
            i <= data@.len(),
            bi < usize::MAX,
            old(self).inv(),
        ensures
            final(self).inv(),
            r matches Err(m) ==> m@ == err_24(data@, i as int),
            match step_24(data@, old(self).st(), bi as int, i as int) {
                Some((s, nb)) => r == Ok::<usize, String>(nb as usize) && final(self).st() == s,
                None => r is Err,
            },
    {
        if data.len() - i < 2 {
            return Err("truncated 0x24".to_owned());
        }
        let reps = rd16(data, i);
        if self.skip > 0 {
            if self.skip == usize::MAX {
                return Err("TZX skip-depth overflow (nested Loop Start)".to_owned());
            }
            self.skip += 1;
        } else if reps == 0 {
            self.skip = 1;
        } else {
            self.loops.push((bi + 1, reps as u16));
        }
        Ok(bi + 1)
    }

    pub(crate) fn block_25(&mut self, bi: usize) -> (r: Result<usize, String>)
        requires
            bi < usize::MAX,
            old(self).inv(),
        ensures
            final(self).inv(),
            r matches Err(m) ==> m@ == err_25(old(self).st()),
            match step_25(old(self).st(), bi as int) {
                Some((s, nb)) => r == Ok::<usize, String>(nb as usize) && final(self).st() == s,
                None => r is Err,
            },
    {
        if self.skip > 0 {
            self.skip -= 1;
            return Ok(bi + 1);
        }
        let n = self.loops.len();
        if n == 0 {
            return Err("TZX Loop End (0x25) without matching Loop Start".to_owned());
        }
        let (restart, remaining) = self.loops[n - 1];
        let rem: u16 = if remaining > 0 { remaining - 1 } else { 0 };
        if rem > 0 {
            if self.pulses.len() > MAX_SCHEDULED_PULSES {
                return Err("TZX pulse schedule exceeded 16777216 pulses (loop expansion?)".to_owned());
            }
            if self.replays >= MAX_LOOP_REPLAYS {
                return Err("TZX loop replay count exceeded 1048576".to_owned());
            }
            self.loops.set(n - 1, (restart, rem));
            self.replays += 1;
            Ok(restart)
        } else {
            self.loops.pop();
            Ok(bi + 1)
        }
    }

    #[verifier::spinoff_prover]
    #[verifier::rlimit(40)]
    pub(crate) fn block_26(&mut self, data: &[u8], bi: usize, i: usize, count: usize) -> (r: Result<usize, String>)
        requires
            i <= data@.len(),
            bi < usize::MAX,
            old(self).inv(),
        ensures
            final(self).inv(),
            r matches Err(m) ==> m@ == err_26(data@, old(self).st(), bi as int, i as int, count as int),
            match step_26(data@, old(self).st(), bi as int, i as int, count as int) {
                Some((s, nb)) => r == Ok::<usize, String>(nb as usize) && final(self).st() == s,
                None => r is Err,
            },
    {
        if data.len() - i < 2 {
            return Err("truncated 0x26".to_owned());
        }
        let n = rd16(data, i);
        if data.len() - (i + 2) < 2 * n {
            return Err("truncated 0x26 call list".to_owned());
        }
        let mut offsets: Vec<i16> = Vec::new();
        let mut k: usize = 0;
        let dl = data.len();
        while k < n
            invariant
                dl == data@.len(),
                k <= n,
                n == le16(data@, i as int),
                i + 2 + 2 * n <= data@.len(),
                offsets@ =~= call_offsets(data@, i as int, n as int).take(k as int),
            decreases n - k,
        {
            let o = rds16(data, i + 2 + 2 * k);
            offsets.push(o);
            k += 1;
        }
        assert(offsets@ =~= call_offsets(data@, i as int, n as int));
        if self.skip != 0 || n == 0 {
            return Ok(bi + 1);
        }
        if self.calls.len() > 0 {
            return Err("TZX nested Call sequence (0x26) is not allowed".to_owned());
        }
        match self.count_transfer() {
            Err(e) => { return Err(e); },
            Ok(()) => {},
        }
        let first = offsets[0];
        let target = match resolve_exec(bi, first, count, JumpKind::Call) {
            Err(e) => { return Err(e); },
            Ok(t) => t,
        };
        let ghost before = self.calls@;
        self.calls.push(CallFrame { call_bi: bi, return_bi: bi + 1, offsets, next_call: 1 });
        proof {
            assert(self.calls@.map_values(|f: CallFrame| f.spec()) =~= before.map_values(|f: CallFrame| f.spec()).push(
                CallSpec { call_bi: bi as int, return_bi: bi + 1, offsets: call_offsets(data@, i as int, n as int), next_call: 1 },
            ));
        }
        Ok(target)
    }

    #[verifier::spinoff_prover]
    #[verifier::rlimit(40)]
    pub(crate) fn block_27(&mut self, bi: usize, count: usize) -> (r: Result<usize, String>)
        requires
            bi < usize::MAX,
            old(self).inv(),
        ensures
            final(self).inv(),
            r matches Err(m) ==> m@ == err_27(old(self).st(), count as int),
            match step_27(old(self).st(), bi as int, count as int) {
                Some((s, nb)) => r == Ok::<usize, String>(nb as usize) && final(self).st() == s,
                None => r is Err,
            },
    {
        if self.skip != 0 {
            return Ok(bi + 1);
        }
        let n = self.calls.len();
        if n == 0 {
            return Err("TZX Return (0x27) without matching Call sequence".to_owned());
        }
        let ghost before = self.calls@;
        let mut f = self.calls.pop().unwrap();
        let ghost old_f = f.spec();
        proof {
            assert(before.map_values(|f: CallFrame| f.spec()).last() == f.spec());
        }
        match self.count_transfer() {
            Err(e) => { return Err(e); },
            Ok(()) => {},
        }
        if f.next_call < f.offsets.len() {
            let rel = f.offsets[f.next_call];
            let target = match resolve_exec(f.call_bi, rel, count, JumpKind::Call) {
                Err(e) => { return Err(e); },
                Ok(t) => t,
            };
            f.next_call += 1;
            self.calls.push(f);
            proof {
                assert(f.spec() == CallSpec { next_call: old_f.next_call + 1, ..old_f });
                assert(self.calls@ == before.subrange(0, before.len() - 1).push(f));
                assert forall|k: int| 0 <= k < before.len() - 1 implies #[trigger] self.calls@[k] == before[k] by {}
                assert(self.calls@.map_values(|f: CallFrame| f.spec()) =~= before.map_values(|f: CallFrame| f.spec()).update(
                    before.len() - 1, CallSpec { next_call: old_f.next_call + 1, ..old_f }));
            }
            Ok(target)
        } else {
            proof {
                assert(self.calls@.map_values(|f: CallFrame| f.spec()) =~= before.map_values(|f: CallFrame| f.spec()).drop_last());
            }
            Ok(f.return_bi)
        }
    }

    pub(crate) fn block_28(&mut self, data: &[u8], bi: usize, i: usize, count: usize) -> (r: Result<usize, String>)
        requires
            i <= data@.len(),
            bi < usize::MAX,
            old(self).inv(),
        ensures
            final(self).inv(),
            r matches Err(m) ==> m@ == err_28(data@, old(self).st(), bi as int, i as int, count as int),
            match step_28(data@, old(self).st(), bi as int, i as int, count as int) {
                Some((s, nb)) => r == Ok::<usize, String>(nb as usize) && final(self).st() == s,
                None => r is Err,
            },
    {
        if data.len() - i < 2 {
            return Err("truncated 0x28".to_owned());
        }
        let len = rd16(data, i);
        if data.len() - (i + 2) < len {
            return Err("truncated 0x28 body".to_owned());
        }
        if self.skip != 0 || len < 3 || data[i + 2] == 0 {
            return Ok(bi + 1);
        }
        let rel = rds16(data, i + 3);
        match self.count_transfer() {
            Err(e) => { return Err(e); },
            Ok(()) => {},
        }
        resolve_exec(bi, rel, count, JumpKind::Select)
    }
}

/// Which control-flow block a relative jump belongs to (for error texts).
pub enum JumpKind {
    Jump,
    Call,
    Select,
}

/// Exec [`resolve`].
pub fn resolve_exec(from: usize, rel: i16, count: usize, kind: JumpKind) -> (r: Result<usize, String>)
    ensures
        r is Ok <==> resolve(from as int, rel as int, count as int) is Some,
        r matches Ok(t) ==> resolve(from as int, rel as int, count as int) == Some(t as int),
        r matches Err(m) ==> m@ == resolve_err(from as int, rel as int, count as int, kind),
{
    let name = match kind {
        JumpKind::Jump => "Jump (0x23)",
        JumpKind::Call => "Call (0x26)",
        JumpKind::Select => "Select (0x28)",
    };
    if rel == 0 {
        return Err(match kind {
            JumpKind::Jump => "TZX Jump (0x23) relative 0 is an infinite loop".to_owned(),
            JumpKind::Call => "TZX Call (0x26) relative 0 is an infinite loop".to_owned(),
            JumpKind::Select => "TZX Select (0x28) relative 0 is an infinite loop".to_owned(),
        });
    }
    if from > 0x7fff_ffff {
        return Err(fmt_out_of_range(name, from, rel, count));
    }
    let target: i64 = from as i64 + rel as i64;
    if target > 0x7fff_ffff || target < 0 || target as u64 > count as u64 {
        return Err(fmt_out_of_range(name, from, rel, count));
    }
    Ok(target as usize)
}


/// Folding a sequence that has a failing prefix fails.
pub proof fn lemma_abs_fold_prefix_none(e: EarState, levels: Seq<bool>, p: int, d: u32)
    requires
        0 <= p <= levels.len(),
        abs_fold(e, levels.take(p), d) is None,
    ensures
        abs_fold(e, levels, d) is None,
    decreases levels.len() - p,
{
    if p < levels.len() {
        assert(levels.take(p + 1).drop_last() =~= levels.take(p));
        lemma_abs_fold_prefix_none(e, levels, p + 1, d);
    } else {
        assert(levels.take(p) =~= levels);
    }
}

/// Emit an absolute level, merging with the previous pulse of the same level.
pub fn push_absolute(pulses: &mut Vec<(u32, bool)>, level: &mut bool, force_low: &mut bool, high: bool, d: u32) -> (r: Result<(), String>)
    ensures
        r is Ok <==> push_abs(ear(old(pulses)@, *old(level), *old(force_low)), high, d) is Some,
        r is Ok ==> Some(ear(final(pulses)@, *final(level), *final(force_low))) == push_abs(
            ear(old(pulses)@, *old(level), *old(force_low)),
            high,
            d,
        ),
        r matches Err(m) ==> m@ == pulses_cap_text(),
{
    if d == 0 {
        return Ok(());
    }
    let n = pulses.len();
    if n > 0 && pulses[n - 1].1 == high {
        let last = pulses[n - 1].0;
        let merged = if last as u64 + d as u64 > u32::MAX as u64 { u32::MAX } else { last + d };
        pulses.set(n - 1, (merged, high));
        *level = !high;
        *force_low = false;
        return Ok(());
    }
    if n >= MAX_SCHEDULED_PULSES {
        return Err("TZX pulse schedule exceeded 16777216 pulses (loop expansion?)".to_owned());
    }
    pulses.push((d, high));
    *level = !high;
    *force_low = false;
    Ok(())
}

/// The sample bits of a direct recording as absolute levels of `tps` T-states.
pub fn push_direct_samples(
    pulses: &mut Vec<(u32, bool)>,
    level: &mut bool,
    force_low: &mut bool,
    samples: &[u8],
    tps: u32,
    ubn: u8,
) -> (r: Result<(), String>)
    requires
        samples@.len() > 0,
        samples@.len() < 16777216,
        1 <= ubn <= 8,
    ensures
        match abs_fold(ear(old(pulses)@, *old(level), false), sample_levels(samples@, ubn as int), tps) {
            Some(e) => r is Ok && ear(final(pulses)@, *final(level), *final(force_low)) == e,
            None => r is Err,
        },
        r matches Err(m) ==> m@ == pulses_cap_text(),
{
    *force_low = false;
    let ghost e0 = ear(pulses@, *level, *force_low);
    let ghost levels = sample_levels(samples@, ubn as int);
    let len = samples.len();
    let total: usize = 8 * (len - 1) + ubn as usize;
    let mut m: usize = 0;
    assert(levels.take(0) =~= Seq::<bool>::empty());
    while m < total
        invariant
            total == levels.len(),
            len == samples@.len(),
            total == 8 * (len - 1) + ubn,
            1 <= ubn <= 8,
            len > 0,
            levels == sample_levels(samples@, ubn as int),
            e0 == ear(old(pulses)@, *old(level), false),
            m <= total,
            abs_fold(e0, levels.take(m as int), tps) == Some(ear(pulses@, *level, *force_low)),
        decreases total - m,
    {
        assert(m / 8 < len);
        let byte = samples[m / 8];
        let sh: u8 = (7 - m % 8) as u8;
        let high = (byte >> sh) & 1u8 == 1u8;
        proof {
            assert(levels[m as int] == high);
            assert(levels.take(m + 1).drop_last() =~= levels.take(m as int));
        }
        match push_absolute(pulses, level, force_low, high, tps) {
            Err(e) => {
                proof {
                    lemma_abs_fold_prefix_none(e0, levels, m + 1, tps);
                }
                return Err(e);
            },
            Ok(()) => {},
        }
        m += 1;
    }
    assert(levels.take(total as int) =~= levels);
    Ok(())
}

/// Saturating product of two `u32`.
pub fn sat_mul_exec(a: u32, b: u32) -> (r: u32)
    ensures
        r == sat_mul_u32(a, b),
{
    assert((a as u64) * (b as u64) <= 0xffff_fffe_0000_0001u64) by (nonlinear_arith)
        requires
            a <= 0xffff_ffffu32,
            b <= 0xffff_ffffu32,
    ;
    let p = a as u64 * b as u64;
    if p > u32::MAX as u64 { u32::MAX } else { p as u32 }
}

/// Exec [`rle_from`] from offset 0.
pub fn decode_csw_rle(raw: &[u8]) -> (r: Result<Vec<u32>, String>)
    ensures
        match rle_from(raw@, 0) {
            Some(c) => r matches Ok(v) && v@ == c,
            None => r is Err,
        },
        r matches Err(m) ==> m@ == "truncated CSW RLE dword"@,
{
    let mut out: Vec<u32> = Vec::new();
    let mut i: usize = 0;
    let n = raw.len();
    assert(out@ + rle_from(raw@, 0).unwrap_or(Seq::empty()) =~= rle_from(raw@, 0).unwrap_or(Seq::empty()));
    while i < n
        invariant
            n == raw@.len(),
            i <= n,
            rle_from(raw@, 0) == (match rle_from(raw@, i as int) {
                None => None,
                Some(rest) => Some(out@ + rest),
            }),
        decreases n - i,
    {
        let b = raw[i];
        let ghost old_out = out@;
        if b == 0 {
            if n - i < 5 {
                return Err("truncated CSW RLE dword".to_owned());
            }
            let c = rd32(raw, i + 1) as u32;
            out.push(c);
            proof {
                match rle_from(raw@, i + 5) {
                    None => {},
                    Some(rest) => { assert(old_out + (seq![c] + rest) =~= out@ + rest); },
                }
            }
            i += 5;
        } else {
            out.push(b as u32);
            proof {
                match rle_from(raw@, i + 1) {
                    None => {},
                    Some(rest) => { assert(old_out + (seq![b as u32] + rest) =~= out@ + rest); },
                }
            }
            i += 1;
        }
    }
    assert(out@ + Seq::<u32>::empty() =~= out@);
    Ok(out)
}

impl Expander {
    pub(crate) fn block_15(&mut self, data: &[u8], bi: usize, i: usize) -> (r: Result<usize, String>)
        requires
            i <= data@.len(),
            bi < usize::MAX,
            old(self).inv(),
        ensures
            final(self).inv(),
            r matches Err(m) ==> m@ == err_15(data@, old(self).st(), i as int),
            match step_15(data@, old(self).st(), bi as int, i as int) {
                Some((s, nb)) => r == Ok::<usize, String>(nb as usize) && final(self).st() == s,
                None => r is Err,
            },
    {
        let n = data.len();
        if n - i < 8 {
            return Err("truncated 0x15".to_owned());
        }
        let tps = rd16(data, i) as u32;
        let pause_ms = rd16(data, i + 2);
        let ub = data[i + 4];
        let len = rd24(data, i + 5);
        if n - (i + 8) < len {
            return Err("0x15 data truncated".to_owned());
        }
        if self.skip != 0 {
            return Ok(bi + 1);
        }
        let samples = copy_range(data, i + 8, i + 8 + len);
        assert(samples@ =~= data@.subrange(i + 8, i + 8 + len));
        let ubn = used_bits_exec(ub);
        let t = ms_to_t_exec(pause_ms);
        let est: u64 = (if len == 0 { 0 } else { (len as u64 - 1) * 8 + ubn as u64 }) + (if t > 0 { 1 } else { 0 });
        match self.open_block(est) {
            Err(e) => { return Err(e); },
            Ok(()) => {},
        }
        let ghost s = self.st();
        if len == 0 || tps == 0 {
            push_pause(&mut self.pulses, &mut self.level, &mut self.force_low, t);
        } else {
            match push_direct_samples(&mut self.pulses, &mut self.level, &mut self.force_low, samples.as_slice(), tps, ubn) {
                Err(e) => { return Err(e); },
                Ok(()) => {},
            }
            push_pause(&mut self.pulses, &mut self.level, &mut self.force_low, t);
        }
        proof {
            assert(direct(es(s), samples@, tps, ub, pause_ms as int) == Some(ear(self.pulses@, self.level, self.force_low)));
            assert(self.st() == with_es(s, ear(self.pulses@, self.level, self.force_low)));
        }
        match self.close_block() {
            Err(e) => { return Err(e); },
            Ok(()) => {},
        }
        Ok(bi + 1)
    }

    /// CSW body (pause, rate, compression, pulse count, data) after the block start.
    fn csw_body(&mut self, body: &[u8], rate: u32, comp: u8, stored: u64, pause_ms: usize) -> (r: Result<(), String>)
        requires
            body@.len() >= 10,
            pause_ms < 65536,
            old(self).inv(),
        ensures
            final(self).inv(),
            final(self).starts@ == old(self).starts@,
            final(self).loops@ == old(self).loops@,
            final(self).calls@ == old(self).calls@,
            final(self).skip == old(self).skip,
            final(self).replays == old(self).replays,
            final(self).transfers == old(self).transfers,
            match csw(es(old(self).st()), body@.skip(10), rate as int, comp, stored as int, pause_ms as int) {
                Some(e) => r is Ok && ear(final(self).pulses@, final(self).level, final(self).force_low) == e,
                None => r is Err,
            },
            r matches Err(m) ==> reports(m@, csw_err(body@.skip(10), rate as int, comp, stored as int)),
    {
        if rate == 0 {
            return Err("TZX CSW sample rate is 0".to_owned());
        }
        let tps = 3_500_000u32 / rate;
        if tps == 0 {
            return Err("TZX CSW sample rate too high".to_owned());
        }
        let csw_data = copy_range(body, 10, body.len());
        assert(csw_data@ =~= body@.skip(10));
        let raw: Vec<u8> = if comp == 0x01 {
            csw_data
        } else if comp == 0x02 {
            let cap: u64 = (MAX_SCHEDULED_PULSES as u64) * 5;
            match crate::zlib::inflate_zlib(csw_data.as_slice(), cap + 1) {
                Err(e) => {
                    let m = fmt_prefixed("TZX CSW Z-RLE inflate failed: ", e.as_str());
                    assert(m@.take(inflate_failed_prefix().len() as int) =~= inflate_failed_prefix());
                    return Err(m);
                },
                Ok(plain) => {
                    if plain.len() as u64 > cap {
                        return Err("TZX CSW Z-RLE stream too large".to_owned());
                    }
                    plain
                },
            }
        } else {
            proof {
                reveal_strlit("");
            }
            let m = fmt_hex_id("unsupported TZX CSW compression ", comp, "");
            assert(m@ =~= csw_err(body@.skip(10), rate as int, comp, stored as int).unwrap());
            return Err(m);
        };
        assert(csw_raw(body@.skip(10), comp) == Some(raw@));
        self.csw_samples(raw.as_slice(), tps, stored, pause_ms)
    }

    /// The pulses of raw (uncompressed) CSW RLE bytes at `tps` T-states per
    /// sample, then the pause; `stored` is the header's pulse count (0: not
    /// checked).
    pub fn csw_samples(&mut self, raw: &[u8], tps: u32, stored: u64, pause_ms: usize) -> (r: Result<(), String>)
        requires
            pause_ms < 65536,
            old(self).inv(),
        ensures
            final(self).inv(),
            final(self).starts@ == old(self).starts@,
            final(self).loops@ == old(self).loops@,
            final(self).calls@ == old(self).calls@,
            final(self).skip == old(self).skip,
            final(self).replays == old(self).replays,
            final(self).transfers == old(self).transfers,
            match csw_pulses(es(old(self).st()), raw@, tps, stored as int, pause_ms as int) {
                Some(e) => r is Ok && ear(final(self).pulses@, final(self).level, final(self).force_low) == e,
                None => r is Err,
            },
            r matches Err(m) ==> m@ == csw_pulses_err(raw@, stored as int),
    {
        let counts = match decode_csw_rle(raw) {
            Err(e) => { return Err(e); },
            Ok(c) => c,
        };
        if stored != 0 && (counts.len() as u64) % 4294967296 != stored {
            return Err(fmt_two_numbers("TZX CSW pulse count mismatch (got ", counts.len() as u64, ", header ", stored, ")"));
        }
        if counts.len() > MAX_SCHEDULED_PULSES || self.pulses.len() > MAX_SCHEDULED_PULSES - counts.len() {
            return Err("TZX pulse schedule exceeded 16777216 pulses (loop expansion?)".to_owned());
        }
        let ghost e0 = es(self.st());
        let ghost durs = csw_durs(counts@, tps);
        let mut k: usize = 0;
        assert(durs.take(0) =~= Seq::<u32>::empty());
        while k < counts.len()
            invariant
                k <= counts@.len(),
                durs == csw_durs(counts@, tps),
                ear(self.pulses@, self.level, self.force_low) == emit(e0, durs.take(k as int)),
                self.starts@ == old(self).starts@,
                self.loops@ == old(self).loops@,
                self.calls@ == old(self).calls@,
                self.skip == old(self).skip,
                self.replays == old(self).replays,
                self.transfers == old(self).transfers,
            decreases counts@.len() - k,
        {
            let d = sat_mul_exec(counts[k], tps);
            push_pulse_tzx(&mut self.pulses, &mut self.level, &mut self.force_low, d);
            proof {
                lemma_emit_concat(e0, durs.take(k as int), seq![d]);
                assert(durs.take(k as int) + seq![d] =~= durs.take(k + 1));
            }
            k += 1;
        }
        assert(durs.take(counts@.len() as int) =~= durs);
        let t = ms_to_t_exec(pause_ms);
        push_pause(&mut self.pulses, &mut self.level, &mut self.force_low, t);
        Ok(())
    }

    pub(crate) fn block_18(&mut self, data: &[u8], bi: usize, i: usize) -> (r: Result<usize, String>)
        requires
            i <= data@.len(),
            bi < usize::MAX,
            old(self).inv(),
        ensures
            final(self).inv(),
            r matches Err(m) ==> reports(m@, err_18(data@, old(self).st(), i as int)),
            match step_18(data@, old(self).st(), bi as int, i as int) {
                Some((s, nb)) => r == Ok::<usize, String>(nb as usize) && final(self).st() == s,
                None => r is Err,
            },
    {
        let n = data.len();
        if n - i < 4 {
            return Err("truncated 0x18".to_owned());
        }
        let body_len = rd32(data, i);
        if body_len < 10 || body_len > (n - (i + 4)) as u64 {
            return Err("truncated 0x18 body".to_owned());
        }
        if self.skip != 0 {
            return Ok(bi + 1);
        }
        let body = copy_range(data, i + 4, i + 4 + body_len as usize);
        assert(body@ =~= data@.subrange(i + 4, i + 4 + le32(data@, i as int)));
        let pause_ms = rd16(body.as_slice(), 0);
        let rate = rd24(body.as_slice(), 2) as u32;
        let comp = body[5];
        let stored = rd32(body.as_slice(), 6);
        let t = ms_to_t_exec(pause_ms);
        let pp: u64 = if t > 0 { 1 } else { 0 };
        let budget: u64 = if stored + pp > usize::MAX as u64 { usize::MAX as u64 } else { stored + pp };
        match self.open_block(budget) {
            Err(e) => { return Err(e); },
            Ok(()) => {},
        }
        let ghost s = self.st();
        match self.csw_body(body.as_slice(), rate, comp, stored, pause_ms) {
            Err(e) => { return Err(e); },
            Ok(()) => {},
        }
        proof {
            assert(self.st() == with_es(s, ear(self.pulses@, self.level, self.force_low)));
        }
        match self.close_block() {
            Err(e) => { return Err(e); },
            Ok(()) => {},
        }
        Ok(bi + 1)
    }
}

} // verus!

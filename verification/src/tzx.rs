//! TZX tape images: expansion into an EAR pulse schedule and playback.
//!
//! Playable block IDs: 0x10, 0x11, 0x12, 0x13, 0x14, 0x15, 0x18, 0x19, 0x20,
//! Loop Start/End (0x24 / 0x25), Jump / Call / Return / Select (0x23,
//! 0x26 to 0x28; Select takes its first entry), Stop-if-48K (0x2A, a no-op
//! here) and Set signal level (0x2B). Informational blocks 0x21, 0x22, 0x30,
//! 0x32, 0x33, 0x35 and 0x5A are skipped.

use vstd::prelude::*;
use crate::msg::{fmt_hex_id, fmt_unsupported_id};
use crate::tzx_expand::Expander;
use crate::tap::{blocks_view, copy_range, le16, TapImage, TapPlayer, TapeError};
use crate::tzx_expand::ms_to_t_exec;
use crate::text::{dec_chars, hex2_chars};
use crate::tzx_errors::{err_skip, reports, tzx_expand_err, tzx_run_err, tzx_step_err};
use crate::tzx_frame::{block_offsets, byte_or0, index_blocks, le24, le32, lemma_offsets_in_range, offs_int, rd16, rd24, rd32};
use crate::tzx_spec::{
    budget, exp_init, ms_to_t, progresses, step_skip, tzx_expand, tzx_run, tzx_signature, tzx_step, Exp,
    MAX_CONTROL_TRANSFERS, MAX_LOOP_REPLAYS, MAX_SCHEDULED_PULSES,
};

verus! {

/// Every step of the walk keeps the counters within their caps and the
/// schedule within its budget, and either moves to the next block or spends
/// replay / transfer budget.
#[verifier::spinoff_prover]
#[verifier::rlimit(50)]
pub proof fn lemma_step_progresses(data: Seq<u8>, offs: Seq<int>, st: Exp, bi: int)
    requires
        0 <= bi < offs.len() <= usize::MAX,
        forall|k: int| 0 <= k < st.calls.len() ==> 0 <= #[trigger] st.calls[k].return_bi <= usize::MAX,
        0 <= st.replays <= MAX_LOOP_REPLAYS,
        0 <= st.transfers <= MAX_CONTROL_TRANSFERS,
        st.pulses.len() <= MAX_SCHEDULED_PULSES,
    ensures
        match tzx_step(data, offs, st, bi) {
            Some((s2, b2)) => {
                &&& progresses(st, bi, s2, b2)
                &&& 0 <= b2 <= usize::MAX
                &&& 0 <= s2.replays <= MAX_LOOP_REPLAYS
                &&& 0 <= s2.transfers <= MAX_CONTROL_TRANSFERS
                &&& s2.pulses.len() <= MAX_SCHEDULED_PULSES
            },
            None => true,
        },
{
    reveal(tzx_step);
}

impl Expander {
    /// A block that carries no pulses and needs `need` body bytes.
    fn skip_block(&self, data: &[u8], id: u8, bi: usize, i: usize, need: usize) -> (r: Result<usize, String>)
        requires
            i <= data@.len(),
            bi < usize::MAX,
        ensures
            match step_skip(data@, self.st(), bi as int, i as int, need as int) {
                Some((s, nb)) => r == Ok::<usize, String>(nb as usize) && s == self.st(),
                None => r is Err,
            },
            r matches Err(m) ==> m@ == err_skip(id),
    {
        if need > data.len() - i {
            proof {
                reveal_strlit("");
            }
            let m = fmt_hex_id("truncated ", id, "");
            assert(m@ =~= err_skip(id));
            return Err(m);
        }
        Ok(bi + 1)
    }

    /// Expand block `bi`; the result is the next block index.
    fn step(&mut self, data: &[u8], offs: &Vec<usize>, bi: usize) -> (r: Result<usize, String>)
        requires
            bi < offs@.len(),
            forall|k: int| 0 <= k < offs@.len() ==> #[trigger] offs@[k] < data@.len(),
            old(self).inv(),
        ensures
            final(self).inv(),
            match tzx_step(data@, offs_int(offs@), old(self).st(), bi as int) {
                Some((s, nb)) => r == Ok::<usize, String>(nb as usize) && final(self).st() == s,
                None => r is Err,
            },
            r matches Err(m) ==> reports(m@, tzx_step_err(data@, offs_int(offs@), old(self).st(), bi as int)),
    {
        proof {
            reveal(tzx_step);
            reveal(tzx_step_err);
        }
        let off = offs[bi];
        let id = data[off];
        let i = off + 1;
        let count = offs.len();
        assert(offs_int(offs@)[bi as int] == off as int);
        if id == 0x10 {
            self.block_10(data, bi, i)
        } else if id == 0x11 {
            self.block_11(data, bi, i)
        } else if id == 0x12 {
            self.block_12(data, bi, i)
        } else if id == 0x13 {
            self.block_13(data, bi, i)
        } else if id == 0x14 {
            self.block_14(data, bi, i)
        } else if id == 0x15 {
            self.block_15(data, bi, i)
        } else if id == 0x18 {
            self.block_18(data, bi, i)
        } else if id == 0x19 {
            self.block_19(data, bi, i)
        } else if id == 0x20 {
            self.block_20(data, bi, i)
        } else if id == 0x21 || id == 0x30 || id == 0x33 {
            self.skip_block(data, id, bi, i, 1)
        } else if id == 0x22 || id == 0x5a {
            self.skip_block(data, id, bi, i, 0)
        } else if id == 0x23 {
            self.block_23(data, bi, i, count)
        } else if id == 0x24 {
            self.block_24(data, bi, i)
        } else if id == 0x25 {
            self.block_25(bi)
        } else if id == 0x26 {
            self.block_26(data, bi, i, count)
        } else if id == 0x27 {
            self.block_27(bi, count)
        } else if id == 0x28 {
            self.block_28(data, bi, i, count)
        } else if id == 0x2a {
            self.skip_block(data, id, bi, i, 4)
        } else if id == 0x2b {
            self.block_2b(data, bi, i)
        } else if id == 0x32 {
            self.skip_block(data, id, bi, i, 2)
        } else if id == 0x35 {
            self.skip_block(data, id, bi, i, 0x14)
        } else {
            proof {
                reveal_strlit("");
            }
            let m = fmt_unsupported_id(id, off, "");
            assert(m@ =~= unsupported_text(id, off as int, Seq::empty()));
            Err(m)
        }
    }
}

/// Whether `data` starts with `ZXTape!`.
pub fn has_tzx_signature(data: &[u8]) -> (r: bool)
    requires
        data@.len() >= 7,
    ensures
        r == (data@.take(7) == tzx_signature()),
{
    let r = data[0] == 0x5a && data[1] == 0x58 && data[2] == 0x54 && data[3] == 0x61 && data[4] == 0x70
        && data[5] == 0x65 && data[6] == 0x21;
    proof {
        if r {
            assert(data@.take(7) =~= tzx_signature());
        } else {
            assert(data@.take(7) != tzx_signature()) by {
                if data@.take(7) == tzx_signature() {
                    assert(data@.take(7)[0] == tzx_signature()[0]);
                    assert(data@.take(7)[1] == tzx_signature()[1]);
                    assert(data@.take(7)[2] == tzx_signature()[2]);
                    assert(data@.take(7)[3] == tzx_signature()[3]);
                    assert(data@.take(7)[4] == tzx_signature()[4]);
                    assert(data@.take(7)[5] == tzx_signature()[5]);
                    assert(data@.take(7)[6] == tzx_signature()[6]);
                }
            }
        }
    }
    r
}

/// Expand a whole TZX image into its pulse schedule and logical block starts.
pub fn expand_tzx(data: &[u8]) -> (r: Result<Expander, String>)
    ensures
        match tzx_expand(data@) {
            Some(st) => r matches Ok(e) && e.st() == st,
            None => r is Err,
        },
        r matches Ok(e) ==> e.pulses@.len() <= MAX_SCHEDULED_PULSES,
        r matches Err(m) ==> reports(m@, tzx_expand_err(data@)),
{
    if data.len() < 10 || !has_tzx_signature(data) || data[7] != 0x1a {
        return Err("missing TZX signature".to_owned());
    }
    let offs = match index_blocks(data) {
        Err(e) => { return Err(e); },
        Ok(o) => o,
    };
    let ghost os = offs_int(offs@);
    proof {
        lemma_offsets_in_range(data@, 10);
        assert forall|k: int| 0 <= k < offs@.len() implies #[trigger] offs@[k] < data@.len() by {
            assert(os[k] == offs@[k] as int);
        }
    }
    let mut x = Expander::new();
    let mut bi: usize = 0;
    let count = offs.len();
    while bi < count
        invariant
            count == offs@.len(),
            os == offs_int(offs@),
            block_offsets(data@) == Some(os),
            data@.len() >= 10 && data@.take(7) == tzx_signature() && data@[7] == 0x1a,
            forall|k: int| 0 <= k < offs@.len() ==> #[trigger] offs@[k] < data@.len(),
            x.inv(),
            x.st().pulses.len() <= MAX_SCHEDULED_PULSES,
            tzx_run(data@, os, exp_init(), 0) == tzx_run(data@, os, x.st(), bi as int),
            tzx_run_err(data@, os, exp_init(), 0) == tzx_run_err(data@, os, x.st(), bi as int),
        decreases budget(x.st()), count - bi,
    {
        let ghost st0 = x.st();
        proof {
            assert forall|k: int| 0 <= k < st0.calls.len() implies 0 <= #[trigger] st0.calls[k].return_bi <= usize::MAX by {
                assert(st0.calls[k] == x.calls@[k].spec());
            }
            lemma_step_progresses(data@, os, st0, bi as int);
        }
        let nb = match x.step(data, &offs, bi) {
            Err(e) => {
                proof {
                    assert(tzx_run(data@, os, st0, bi as int) is None);
                    assert(tzx_run_err(data@, os, st0, bi as int) == tzx_step_err(data@, os, st0, bi as int));
                    assert(block_offsets(data@) == Some(os));
                    assert(tzx_run(data@, os, exp_init(), 0) is None);
                    assert(tzx_expand_err(data@) == tzx_run_err(data@, os, exp_init(), 0));
                }
                return Err(e);
            },
            Ok(nb) => nb,
        };
        bi = nb;
    }
    if x.skip != 0 || x.loops.len() > 0 {
        return Err("TZX Loop Start (0x24) without matching Loop End".to_owned());
    }
    if x.calls.len() > 0 {
        return Err("TZX Call sequence (0x26) without matching Return (0x27)".to_owned());
    }
    Ok(x)
}


/// Failures loading or parsing a TZX image.
#[derive(Debug)]
pub enum TzxError {
    Io(String),
    Format(String),
}

impl TzxError {
    /// The message of the error.
    pub fn to_string(&self) -> (r: String)
        ensures
            r@ == match self {
                TzxError::Io(m) => m@,
                TzxError::Format(m) => m@,
            },
    {
        match self {
            TzxError::Io(m) => m.clone(),
            TzxError::Format(m) => m.clone(),
        }
    }
}

impl From<TzxError> for TapeError {
    fn from(e: TzxError) -> (r: TapeError) {
        match e {
            TzxError::Io(m) => TapeError::Io(m),
            TzxError::Format(m) => TapeError::Format(m),
        }
    }
}

impl vstd::std_specs::convert::FromSpecImpl<TzxError> for TapeError {
    open spec fn obeys_from_spec() -> bool {
        true
    }

    open spec fn from_spec(e: TzxError) -> TapeError {
        match e {
            TzxError::Io(m) => TapeError::Io(m),
            TzxError::Format(m) => TapeError::Format(m),
        }
    }
}

/// Pulse index, remaining T-states of the active pulse and EAR level after
/// playing `dt` T-states of `p` from pulse `i` with `rem` T-states left.
/// Running past the last pulse leaves the index one past it and the level low.
pub open spec fn tzx_play(p: Seq<(u32, bool)>, i: int, rem: int, lvl: bool, dt: int) -> (int, int, bool)
    decreases p.len() - i, dt,
{
    if dt <= 0 {
        (i, rem, lvl)
    } else if p.len() == 0 {
        (i, rem, false)
    } else if rem <= 0 {
        if i + 1 >= p.len() {
            (i + 1, rem, false)
        } else {
            tzx_play(p, i + 1, p[i + 1].0 as int, p[i + 1].1, dt)
        }
    } else if dt <= rem {
        (i, rem - dt, lvl)
    } else {
        tzx_play(p, i, 0, lvl, dt - rem)
    }
}

/// Pulse index, remaining T-states, EAR level and logical block of a playing
/// TZX deck after `dt` T-states: the position [`tzx_play`] reaches; when the
/// last pulse ends exactly, the deck is exhausted at once and idles low;
/// the block follows the pulse.
pub open spec fn tzx_at(p: Seq<(u32, bool)>, s: Seq<usize>, block: int, i: int, rem: int, lvl: bool, dt: int) -> (
    int,
    int,
    bool,
    int,
) {
    let (i1, r1, l1) = tzx_play(p, i, rem, lvl, dt);
    let promote = p.len() > 0 && r1 == 0 && i1 + 1 >= p.len();
    let i2 = if promote { p.len() as int } else { i1 };
    (i2, r1, if promote { false } else { l1 }, block_at(s, block_at(s, block, i1), i2))
}

/// Position of a playing TZX deck `b` after `a` advanced by `dt` T-states
/// ([`tzx_at`]); the deck stops once its pulses are exhausted.
pub open spec fn tzx_advanced(a: TzxPlayer, b: TzxPlayer, dt: u32) -> bool {
    let p = a.pulses@;
    let (i2, r, l, blk) = tzx_at(p, a.block_starts@, a.block as int, a.pulse_i as int, a.remain as int, a.level, dt as int);
    &&& b.pulse_i == i2
    &&& b.remain == r
    &&& b.level == l
    &&& b.block == blk
    &&& b.playing == !(p.len() == 0 || i2 >= p.len())
}

/// Playing `a` and then `b` T-states is playing `a + b` T-states, unless the
/// first part already ran off the end (then the rest changes nothing). The
/// position never moves backwards and the remaining time stays non-negative.
pub proof fn lemma_tzx_play_compose(p: Seq<(u32, bool)>, i: int, rem: int, lvl: bool, a: int, b: int)
    requires
        0 <= i < p.len(),
        rem >= 0,
        a >= 0,
        b >= 0,
    ensures
        ({
            let (i1, r1, l1) = tzx_play(p, i, rem, lvl, a);
            &&& i <= i1 <= p.len()
            &&& r1 >= 0
            &&& i1 < p.len() ==> tzx_play(p, i1, r1, l1, b) == tzx_play(p, i, rem, lvl, a + b)
            &&& i1 >= p.len() ==> tzx_play(p, i, rem, lvl, a + b) == (i1, r1, l1)
        }),
    decreases p.len() - i, a,
{
    if a == 0 {
    } else if rem <= 0 {
        if i + 1 < p.len() {
            lemma_tzx_play_compose(p, i + 1, p[i + 1].0 as int, p[i + 1].1, a, b);
        }
    } else if a <= rem {
        if b > 0 && a + b > rem && a < rem {
            assert(tzx_play(p, i, rem - a, lvl, b) == tzx_play(p, i, 0, lvl, b - (rem - a)));
        }
    } else {
        lemma_tzx_play_compose(p, i, 0, lvl, a - rem, b);
    }
}

/// Advancing a playing TZX deck by `a` and then by `b` T-states puts it where
/// advancing by `a + b` T-states puts it; once the first advance exhausts
/// the deck, the longer advance ends there too.
pub proof fn lemma_tzx_advance_compose(
    p: Seq<(u32, bool)>,
    s: Seq<usize>,
    block: int,
    i: int,
    rem: int,
    lvl: bool,
    a: int,
    b: int,
)
    requires
        0 <= i < p.len(),
        rem >= 0,
        0 <= block,
        a >= 0,
        b >= 0,
    ensures
        ({
            let (i2, r, l, blk) = tzx_at(p, s, block, i, rem, lvl, a);
            &&& i2 < p.len() ==> tzx_at(p, s, blk, i2, r, l, b) == tzx_at(p, s, block, i, rem, lvl, a + b)
            &&& i2 >= p.len() ==> tzx_at(p, s, block, i, rem, lvl, a + b) == (i2, r, l, blk)
        }),
{
    lemma_tzx_play_compose(p, i, rem, lvl, a, b);
    let (i1, r1, l1) = tzx_play(p, i, rem, lvl, a);
    let n = p.len() as int;
    lemma_block_at_range(s, block, i1);
    if r1 == 0 && i1 + 1 >= n {
        lemma_block_at_compose(s, block, i1, n);
        lemma_block_at_compose(s, block, n, n);
        if i1 < n && b > 0 {
            assert(tzx_play(p, i1, r1, l1, b) == (i1 + 1, r1, false));
        }
    } else {
        lemma_block_at_compose(s, block, i1, i1);
        if i1 < n {
            let (j1, rj, lj) = tzx_play(p, i1, r1, l1, b);
            if i1 + 1 < n || r1 > 0 {
                lemma_tzx_play_compose(p, i1, r1, l1, b, 0);
            }
            lemma_block_at_compose(s, block, i1, j1);
        }
    }
}

/// Logical block reached from block `b` by moving forward while the next
/// block starts at or before pulse `pi`.
pub open spec fn block_at(starts: Seq<usize>, b: int, pi: int) -> int
    decreases starts.len() - b,
{
    if 0 <= b && b + 1 < starts.len() && starts[b + 1] <= pi {
        block_at(starts, b + 1, pi)
    } else {
        b
    }
}

pub proof fn lemma_block_at_range(starts: Seq<usize>, b: int, pi: int)
    requires
        0 <= b,
    ensures
        b <= block_at(starts, b, pi),
        block_at(starts, b, pi) == b || block_at(starts, b, pi) < starts.len(),
    decreases starts.len() - b,
{
    if b + 1 < starts.len() && starts[b + 1] <= pi {
        lemma_block_at_range(starts, b + 1, pi);
    }
}

/// Syncing at `p1` and then at a later `p2` is syncing at `p2`.
pub proof fn lemma_block_at_compose(starts: Seq<usize>, b: int, p1: int, p2: int)
    requires
        0 <= b,
        p1 <= p2,
    ensures
        block_at(starts, block_at(starts, b, p1), p2) == block_at(starts, b, p2),
    decreases starts.len() - b,
{
    if b + 1 < starts.len() && starts[b + 1] <= p1 {
        lemma_block_at_compose(starts, b + 1, p1, p2);
    }
}

/// Start of logical block `b` (0 when there is none).
pub open spec fn block_start(starts: Seq<usize>, b: int) -> int {
    if 0 <= b < starts.len() { starts[b] as int } else { 0 }
}

/// Parsed TZX as an EAR pulse schedule (duration in T-states, level).
#[derive(Clone, Debug)]
pub struct TzxPlayer {
    pub pulses: Vec<(u32, bool)>,
    pub pulse_i: usize,
    pub remain: u32,
    pub level: bool,
    /// When false, [`Self::advance`] does not consume pulses.
    pub playing: bool,
    /// Index into the logical playable blocks.
    pub block: usize,
    /// Pulse index at which each logical block starts.
    pub block_starts: Vec<usize>,
}

impl TzxPlayer {
    /// Internal consistency: the schedule is within budget, the position is
    /// at most one past the end, and `block` is in step with the position.
    pub open spec fn wf(&self) -> bool {
        &&& self.pulses@.len() <= MAX_SCHEDULED_PULSES
        &&& self.pulse_i <= self.pulses@.len()
        &&& self.block == 0 || self.block < self.block_starts@.len()
        &&& self.block == block_at(self.block_starts@, self.block as int, self.pulse_i as int)
    }

    /// Position at the first pulse (the level of the first pulse, low when
    /// there is none), with `block` synced from `b`.
    pub open spec fn at_start_from(&self, b: int) -> bool {
        &&& self.pulse_i == 0
        &&& self.remain == (if self.pulses@.len() > 0 { self.pulses@[0].0 } else { 0 })
        &&& self.level == (self.pulses@.len() > 0 && self.pulses@[0].1)
        &&& self.block == block_at(self.block_starts@, b, 0)
    }

    /// Move `block` forward to the block that holds the current pulse.
    fn sync_block(&mut self)
        requires
            old(self).block == 0 || old(self).block < old(self).block_starts@.len(),
        ensures
            final(self).block == block_at(old(self).block_starts@, old(self).block as int, old(self).pulse_i as int),
            final(self).block == 0 || final(self).block < final(self).block_starts@.len(),
            final(self).pulses == old(self).pulses,
            final(self).block_starts == old(self).block_starts,
            final(self).pulse_i == old(self).pulse_i,
            final(self).remain == old(self).remain,
            final(self).level == old(self).level,
            final(self).playing == old(self).playing,
    {
        let n = self.block_starts.len();
        while self.block < n && n - self.block > 1 && self.block_starts[self.block + 1] <= self.pulse_i
            invariant
                n == self.block_starts@.len(),
                self.block == 0 || self.block < n,
                self.block_starts == old(self).block_starts,
                self.pulse_i == old(self).pulse_i,
                self.pulses == old(self).pulses,
                self.remain == old(self).remain,
                self.level == old(self).level,
                self.playing == old(self).playing,
                block_at(self.block_starts@, self.block as int, self.pulse_i as int) == block_at(
                    old(self).block_starts@,
                    old(self).block as int,
                    old(self).pulse_i as int,
                ),
            decreases n - self.block,
        {
            self.block += 1;
        }
    }

    /// Move to the first pulse and sync `block`.
    fn start(&mut self)
        requires
            old(self).block == 0 || old(self).block < old(self).block_starts@.len(),
        ensures
            final(self).at_start_from(old(self).block as int),
            final(self).block == 0 || final(self).block < final(self).block_starts@.len(),
            final(self).pulses == old(self).pulses,
            final(self).block_starts == old(self).block_starts,
            final(self).playing == old(self).playing,
    {
        if self.pulses.len() > 0 {
            self.remain = self.pulses[0].0;
            self.level = self.pulses[0].1;
        } else {
            self.remain = 0;
            self.level = false;
        }
        self.pulse_i = 0;
        self.sync_block();
    }

    /// Expand a TZX image. Fails with a format error exactly when
    /// [`tzx_expand`] rejects the image, with the message that
    /// [`tzx_expand_err`] names.
    pub fn parse(data: &[u8]) -> (r: Result<Self, TzxError>)
        ensures
            match tzx_expand(data@) {
                Some(st) => r matches Ok(p) && {
                    &&& p.wf()
                    &&& p.pulses@ == st.pulses
                    &&& p.block_starts@ == st.starts
                    &&& p.at_start_from(0)
                    &&& p.playing == (st.pulses.len() > 0)
                },
                None => r matches Err(TzxError::Format(m)) && reports(m@, tzx_expand_err(data@)),
            },
    {
        let x = match expand_tzx(data) {
            Err(e) => { return Err(TzxError::Format(e)); },
            Ok(x) => x,
        };
        let playing = x.pulses.len() > 0;
        let mut p = TzxPlayer {
            pulses: x.pulses,
            pulse_i: 0,
            remain: 0,
            level: false,
            playing,
            block: 0,
            block_starts: x.starts,
        };
        p.start();
        proof {
            lemma_block_at_compose(p.block_starts@, 0, 0, 0);
        }
        Ok(p)
    }

    pub fn set_playing(&mut self, playing: bool)
        ensures
            *final(self) == (TzxPlayer { playing, ..*old(self) }),
    {
        self.playing = playing;
    }

    /// Rewind to the first pulse and pause.
    pub fn rewind(&mut self)
        requires
            old(self).wf(),
        ensures
            final(self).wf(),
            final(self).pulses@ == old(self).pulses@,
            final(self).block_starts@ == old(self).block_starts@,
            final(self).at_start_from(0),
            !final(self).playing,
    {
        self.playing = false;
        self.block = 0;
        self.start();
        proof {
            lemma_block_at_compose(self.block_starts@, 0, 0, 0);
        }
    }

    pub fn ear_level(&self) -> (r: bool)
        ensures
            r == self.level,
    {
        self.level
    }

    pub fn scheduled_pulses(&self) -> (r: usize)
        ensures
            r == self.pulses@.len(),
    {
        self.pulses.len()
    }

    pub fn pulse_index(&self) -> (r: usize)
        ensures
            r == self.pulse_i,
    {
        self.pulse_i
    }

    /// True when every scheduled pulse has been consumed.
    pub fn finished(&self) -> (r: bool)
        ensures
            r == (self.pulses@.len() == 0 || self.pulse_i >= self.pulses@.len()),
    {
        self.pulses.len() == 0 || self.pulse_i >= self.pulses.len()
    }

    /// Pulse index within the active logical block.
    pub fn active_pulse_index(&self) -> (r: usize)
        ensures
            r == (if self.pulse_i >= block_start(self.block_starts@, self.block as int) {
                self.pulse_i - block_start(self.block_starts@, self.block as int)
            } else {
                0
            }),
    {
        let start = if self.block < self.block_starts.len() { self.block_starts[self.block] } else { 0 };
        self.pulse_i.saturating_sub(start)
    }

    /// Pulse count of the active logical block (up to the next block's
    /// start, or to the end of the schedule for the last block).
    pub fn active_pulse_count(&self) -> (r: usize)
        ensures
            ({
                let start = block_start(self.block_starts@, self.block as int);
                let end = if self.block + 1 < self.block_starts@.len() {
                    self.block_starts@[self.block + 1] as int
                } else {
                    self.pulses@.len() as int
                };
                r == (if end >= start { end - start } else { 0 })
            }),
    {
        let n = self.block_starts.len();
        let start = if self.block < n { self.block_starts[self.block] } else { 0 };
        let end = if self.block < n && n - self.block > 1 { self.block_starts[self.block + 1] } else { self.pulses.len() };
        end.saturating_sub(start)
    }

    pub fn block_count(&self) -> (r: usize)
        ensures
            r == self.block_starts@.len(),
    {
        self.block_starts.len()
    }

    /// Advance `dt` T-states; returns the EAR level. When the last pulse ends
    /// exactly, the deck counts as exhausted at once, idles low and stops.
    pub fn advance(&mut self, dt: u32) -> (r: bool)
        requires
            old(self).wf(),
        ensures
            final(self).wf(),
            final(self).pulses == old(self).pulses,
            final(self).block_starts == old(self).block_starts,
            r == final(self).level,
            !old(self).playing ==> *final(self) == *old(self),
            old(self).playing ==> tzx_advanced(*old(self), *final(self), dt),
    {
        if !self.playing {
            return self.level;
        }
        let ghost p = self.pulses@;
        let ghost s = self.block_starts@;
        let ghost b0 = self.block as int;
        let ghost target = tzx_play(p, self.pulse_i as int, self.remain as int, self.level, dt as int);
        let n = self.pulses.len();
        let mut dt = dt;
        proof {
            lemma_block_at_compose(s, b0, self.pulse_i as int, self.pulse_i as int);
        }
        while dt > 0
            invariant
                n == self.pulses@.len(),
                n <= MAX_SCHEDULED_PULSES,
                self.pulses@ == p,
                self.pulses == old(self).pulses,
                self.block_starts == old(self).block_starts,
                self.block_starts@ == s,
                self.playing == old(self).playing,
                0 <= b0,
                b0 == old(self).block,
                self.pulse_i <= n || (self.pulse_i == n + 1 && self.remain == 0 && dt == 0 && n > 0),
                self.block == block_at(s, b0, self.pulse_i as int),
                self.block == 0 || self.block < s.len(),
                tzx_play(p, self.pulse_i as int, self.remain as int, self.level, dt as int) == target,
            decreases n + 1 - self.pulse_i, dt,
        {
            if n == 0 {
                self.sync_block();
                self.level = false;
                dt = 0;
                proof {
                    lemma_block_at_compose(s, b0, self.pulse_i as int, self.pulse_i as int);
                }
            } else if self.remain == 0 {
                let ghost pi0 = self.pulse_i as int;
                let ghost lv0 = self.level;
                let ghost dt0 = dt as int;
                self.pulse_i += 1;
                self.sync_block();
                proof {
                    lemma_block_at_range(s, b0, pi0);
                    lemma_block_at_compose(s, b0, pi0, self.pulse_i as int);
                }
                if self.pulse_i >= n {
                    self.level = false;
                    dt = 0;
                } else {
                    let (r, l) = self.pulses[self.pulse_i];
                    assert(tzx_play(p, pi0, 0, lv0, dt0) == tzx_play(p, pi0 + 1, r as int, l, dt0));
                    self.remain = r;
                    self.level = l;
                    let step = if dt < r { dt } else { r };
                    self.remain = self.remain - step;
                    dt = dt - step;
                }
            } else {
                let step = if dt < self.remain { dt } else { self.remain };
                self.remain = self.remain - step;
                dt = dt - step;
            }
        }
        let ghost i1 = self.pulse_i as int;
        if n > 0 && self.remain == 0 && self.pulse_i + 1 >= n {
            self.pulse_i = n;
            self.sync_block();
            self.level = false;
        }
        proof {
            lemma_block_at_compose(s, b0, i1, i1);
            lemma_block_at_range(s, b0, i1);
            lemma_block_at_range(s, block_at(s, b0, i1), self.pulse_i as int);
            lemma_block_at_compose(s, block_at(s, b0, i1), self.pulse_i as int, self.pulse_i as int);
        }
        if self.finished() {
            self.playing = false;
        }
        self.level
    }

    /// True when every data-bearing block is standard-speed (`0x10`), so the
    /// image can be flash-loaded as TAP.
    pub fn is_standard_speed_only(data: &[u8]) -> (r: bool)
        ensures
            r == tzx_standard_only(data@),
    {
        if data.len() < 10 || !has_tzx_signature(data) {
            return false;
        }
        let n = data.len();
        let mut i: usize = 10;
        let mut saw = false;
        while i < n
            invariant
                n == data@.len(),
                tzx_standard_only(data@) == std_only_from(data@, i as int, saw),
            decreases n - i,
        {
            let id = data[i];
            let j = i + 1;
            let k: u64;
            if id == 0x10 {
                saw = true;
                if n - j < 4 {
                    return false;
                }
                k = 4 + rd16(data, j + 2) as u64;
            } else if (0x11 <= id && id <= 0x15) || id == 0x18 || id == 0x19 {
                return false;
            } else if id == 0x20 {
                k = 2;
            } else if id == 0x21 || id == 0x30 {
                k = 1 + (if j < n { data[j] as u64 } else { 0 });
            } else if id == 0x22 {
                k = 0;
            } else if (0x23 <= id && id <= 0x28) {
                return false;
            } else if id == 0x2a {
                k = 4;
            } else if id == 0x2b {
                k = 5;
            } else if id == 0x32 {
                if n - j < 2 {
                    return false;
                }
                k = 2 + rd16(data, j) as u64;
            } else if id == 0x33 {
                k = 1 + 3 * (if j < n { data[j] as u64 } else { 0 });
            } else if id == 0x35 {
                if n - j < 0x14 {
                    return false;
                }
                k = 0x14 + rd32(data, j + 0x10);
            } else if id == 0x5a {
                k = 9;
            } else {
                return false;
            }
            if k >= (n - j) as u64 {
                assert(std_only_from(data@, j + k, saw) == saw);
                return saw;
            }
            i = j + k as usize;
        }
        saw
    }
}

/// Walk of [`TzxPlayer::is_standard_speed_only`] from offset `i`; `saw`
/// records whether a standard-speed block was seen.
pub open spec fn std_only_from(data: Seq<u8>, i: int, saw: bool) -> bool
    decreases if i < data.len() { data.len() - i } else { 0 },
{
    if i < 0 || i >= data.len() {
        saw
    } else {
        let id = data[i];
        let j = i + 1;
        let n = data.len() as int;
        if id == 0x10 {
            if j + 4 > n { false } else { std_only_from(data, j + 4 + le16(data, j + 2), true) }
        } else if (0x11 <= id <= 0x15) || id == 0x18 || id == 0x19 {
            false
        } else if id == 0x20 {
            std_only_from(data, j + 2, saw)
        } else if id == 0x21 || id == 0x30 {
            std_only_from(data, j + 1 + byte_or0(data, j), saw)
        } else if id == 0x22 {
            std_only_from(data, j, saw)
        } else if 0x23 <= id <= 0x28 {
            false
        } else if id == 0x2a {
            std_only_from(data, j + 4, saw)
        } else if id == 0x2b {
            std_only_from(data, j + 5, saw)
        } else if id == 0x32 {
            if j + 2 > n { false } else { std_only_from(data, j + 2 + le16(data, j), saw) }
        } else if id == 0x33 {
            std_only_from(data, j + 1 + 3 * byte_or0(data, j), saw)
        } else if id == 0x35 {
            if j + 0x14 > n { false } else { std_only_from(data, j + 0x14 + le32(data, j + 0x10), saw) }
        } else if id == 0x5a {
            std_only_from(data, j + 9, saw)
        } else {
            false
        }
    }
}

/// Every data-bearing block is standard-speed and at least one is present.
pub open spec fn tzx_standard_only(data: Seq<u8>) -> bool {
    if data.len() < 10 || data.take(7) != tzx_signature() {
        false
    } else {
        std_only_from(data, 10, false)
    }
}


/// Pause recorded for an extracted block: the block's pause, at least one T-state.
pub open spec fn tap_pause_of(ms: int) -> u32 {
    if ms == 0 { 1 } else { ms_to_t(ms) }
}

/// Standard-speed payloads and their pauses from offset `i` on, in file
/// order; `None` when a block that cannot be read linearly (direct, CSW or
/// generalized recording, control flow, an unknown ID) comes first. A block
/// cut short by the end of the data ends the walk.
pub open spec fn tap_extract_from(data: Seq<u8>, i: int) -> Option<(Seq<Seq<u8>>, Seq<u32>)>
    decreases if i < data.len() { data.len() - i } else { 0 },
{
    if i < 0 || i >= data.len() {
        Some((Seq::empty(), Seq::empty()))
    } else {
        let id = data[i];
        let j = i + 1;
        let n = data.len() as int;
        if id == 0x10 {
            if j + 4 > n || j + 4 + le16(data, j + 2) > n {
                Some((Seq::empty(), Seq::empty()))
            } else {
                let e = j + 4 + le16(data, j + 2);
                match tap_extract_from(data, e) {
                    None => None,
                    Some((b, p)) => Some((seq![data.subrange(j + 4, e)] + b, seq![tap_pause_of(le16(data, j))] + p)),
                }
            }
        } else if id == 0x11 {
            if j + 18 > n { Some((Seq::empty(), Seq::empty())) } else { tap_extract_from(data, j + 18 + le24(data, j + 15)) }
        } else if id == 0x12 || id == 0x2a {
            tap_extract_from(data, j + 4)
        } else if id == 0x13 {
            tap_extract_from(data, j + 1 + 2 * byte_or0(data, j))
        } else if id == 0x14 {
            if j + 10 > n { Some((Seq::empty(), Seq::empty())) } else { tap_extract_from(data, j + 10 + le24(data, j + 7)) }
        } else if id == 0x15 || id == 0x18 || id == 0x19 {
            None
        } else if id == 0x20 || id == 0x24 {
            tap_extract_from(data, j + 2)
        } else if id == 0x21 || id == 0x30 {
            tap_extract_from(data, j + 1 + byte_or0(data, j))
        } else if id == 0x22 || id == 0x25 {
            tap_extract_from(data, j)
        } else if id == 0x23 || (0x26 <= id <= 0x28) {
            None
        } else if id == 0x2b {
            tap_extract_from(data, j + 5)
        } else if id == 0x32 {
            if j + 2 > n { Some((Seq::empty(), Seq::empty())) } else { tap_extract_from(data, j + 2 + le16(data, j)) }
        } else if id == 0x33 {
            tap_extract_from(data, j + 1 + 3 * byte_or0(data, j))
        } else if id == 0x35 {
            if j + 0x14 > n { Some((Seq::empty(), Seq::empty())) } else { tap_extract_from(data, j + 0x14 + le32(data, j + 0x10)) }
        } else if id == 0x5a {
            tap_extract_from(data, j + 9)
        } else {
            None
        }
    }
}

/// `unsupported TZX block ID 0x{id:02x} at offset {at}{why}`.
pub open spec fn unsupported_text(id: u8, at: int, why: Seq<char>) -> Seq<char> {
    "unsupported TZX block ID "@ + seq!['0', 'x'] + hex2_chars(id) + " at offset "@ + dec_chars(at as nat) + why
}

/// The message of the first block from offset `i` on that the TAP
/// extraction walk cannot read linearly (empty when there is none).
pub open spec fn tap_extract_err(data: Seq<u8>, i: int) -> Seq<char>
    decreases if i < data.len() { data.len() - i } else { 0 },
{
    if i < 0 || i >= data.len() {
        Seq::empty()
    } else {
        let id = data[i];
        let j = i + 1;
        let n = data.len() as int;
        if id == 0x10 {
            if j + 4 > n || j + 4 + le16(data, j + 2) > n { Seq::empty() } else { tap_extract_err(data, j + 4 + le16(data, j + 2)) }
        } else if id == 0x11 {
            if j + 18 > n { Seq::empty() } else { tap_extract_err(data, j + 18 + le24(data, j + 15)) }
        } else if id == 0x12 || id == 0x2a {
            tap_extract_err(data, j + 4)
        } else if id == 0x13 {
            tap_extract_err(data, j + 1 + 2 * byte_or0(data, j))
        } else if id == 0x14 {
            if j + 10 > n { Seq::empty() } else { tap_extract_err(data, j + 10 + le24(data, j + 7)) }
        } else if id == 0x15 {
            unsupported_text(id, i, " (direct recording — use EAR)"@)
        } else if id == 0x18 || id == 0x19 {
            unsupported_text(id, i, " (pulse recording — use EAR)"@)
        } else if id == 0x20 || id == 0x24 {
            tap_extract_err(data, j + 2)
        } else if id == 0x21 || id == 0x30 {
            tap_extract_err(data, j + 1 + byte_or0(data, j))
        } else if id == 0x22 || id == 0x25 {
            tap_extract_err(data, j)
        } else if id == 0x23 || (0x26 <= id <= 0x28) {
            unsupported_text(id, i, " (control flow — use EAR)"@)
        } else if id == 0x2b {
            tap_extract_err(data, j + 5)
        } else if id == 0x32 {
            if j + 2 > n { Seq::empty() } else { tap_extract_err(data, j + 2 + le16(data, j)) }
        } else if id == 0x33 {
            tap_extract_err(data, j + 1 + 3 * byte_or0(data, j))
        } else if id == 0x35 {
            if j + 0x14 > n { Seq::empty() } else { tap_extract_err(data, j + 0x14 + le32(data, j + 0x10)) }
        } else if id == 0x5a {
            tap_extract_err(data, j + 9)
        } else {
            unsupported_text(id, i, Seq::empty())
        }
    }
}

/// Why a TZX image has no TAP content (see [`tzx_tap_extract`]).
pub open spec fn tzx_tap_err(data: Seq<u8>) -> Seq<char> {
    if data.len() < 10 || data.take(7) != tzx_signature() {
        "missing TZX signature"@
    } else {
        tap_extract_err(data, 10)
    }
}

/// The TAP content of a TZX image (`None` without the `ZXTape!` signature).
pub open spec fn tzx_tap_extract(data: Seq<u8>) -> Option<(Seq<Seq<u8>>, Seq<u32>)> {
    if data.len() < 10 || data.take(7) != tzx_signature() {
        None
    } else {
        tap_extract_from(data, 10)
    }
}

/// One block of the TAP extraction walk.
pub enum TapScanStep {
    /// The walk ends here (end of data or a block cut short).
    End,
    /// The block cannot be read linearly.
    Fail(String),
    /// Skip to the given offset.
    Skip(usize),
    /// A standard-speed payload `data[start..end]` with its pause in ms.
    Payload(usize, usize, usize),
}

/// Classify the block at offset `i` for the TAP extraction walk.
#[verifier::spinoff_prover]
#[verifier::rlimit(40)]
pub fn tap_scan_block(data: &[u8], i: usize) -> (r: TapScanStep)
    requires
        i < data@.len(),
    ensures
        match r {
            TapScanStep::End => tap_extract_from(data@, i as int) == Some((Seq::<Seq<u8>>::empty(), Seq::<u32>::empty()))
                && tap_extract_err(data@, i as int) == Seq::<char>::empty(),
            TapScanStep::Fail(m) => tap_extract_from(data@, i as int) is None && m@ == tap_extract_err(data@, i as int),
            TapScanStep::Skip(e) => {
                &&& i < e < data@.len()
                &&& tap_extract_from(data@, i as int) == tap_extract_from(data@, e as int)
                &&& tap_extract_err(data@, i as int) == tap_extract_err(data@, e as int)
            },
            TapScanStep::Payload(ms, st, e) => {
                &&& i < st <= e <= data@.len()
                &&& ms < 65536
                &&& tap_extract_err(data@, i as int) == tap_extract_err(data@, e as int)
                &&& tap_extract_from(data@, i as int) == match tap_extract_from(data@, e as int) {
                    None => None,
                    Some((b, p)) => Some((seq![data@.subrange(st as int, e as int)] + b, seq![tap_pause_of(ms as int)] + p)),
                }
            },
        },
{
    let n = data.len();
    let id = data[i];
    let j = i + 1;
    let k: u64;
    if id == 0x10 {
        if n - j < 4 {
            return TapScanStep::End;
        }
        let ms = rd16(data, j);
        let len = rd16(data, j + 2);
        if n - (j + 4) < len {
            return TapScanStep::End;
        }
        return TapScanStep::Payload(ms, j + 4, j + 4 + len);
    } else if id == 0x11 {
        if n - j < 18 {
            return TapScanStep::End;
        }
        k = 18 + rd24(data, j + 15) as u64;
    } else if id == 0x12 || id == 0x2a {
        k = 4;
    } else if id == 0x13 {
        k = 1 + 2 * (if j < n { data[j] as u64 } else { 0 });
    } else if id == 0x14 {
        if n - j < 10 {
            return TapScanStep::End;
        }
        k = 10 + rd24(data, j + 7) as u64;
    } else if id == 0x15 {
        return TapScanStep::Fail(fmt_unsupported_id(id, i, " (direct recording — use EAR)"));
    } else if id == 0x18 || id == 0x19 {
        return TapScanStep::Fail(fmt_unsupported_id(id, i, " (pulse recording — use EAR)"));
    } else if id == 0x20 || id == 0x24 {
        k = 2;
    } else if id == 0x21 || id == 0x30 {
        k = 1 + (if j < n { data[j] as u64 } else { 0 });
    } else if id == 0x22 || id == 0x25 {
        k = 0;
    } else if id == 0x23 || (0x26 <= id && id <= 0x28) {
        return TapScanStep::Fail(fmt_unsupported_id(id, i, " (control flow — use EAR)"));
    } else if id == 0x2b {
        k = 5;
    } else if id == 0x32 {
        if n - j < 2 {
            return TapScanStep::End;
        }
        k = 2 + rd16(data, j) as u64;
    } else if id == 0x33 {
        k = 1 + 3 * (if j < n { data[j] as u64 } else { 0 });
    } else if id == 0x35 {
        if n - j < 0x14 {
            return TapScanStep::End;
        }
        k = 0x14 + rd32(data, j + 0x10);
    } else if id == 0x5a {
        k = 9;
    } else {
        proof {
            reveal_strlit("");
        }
        let m = fmt_unsupported_id(id, i, "");
        assert(m@ =~= tap_extract_err(data@, i as int));
        return TapScanStep::Fail(m);
    }
    if k >= (n - j) as u64 {
        assert(tap_extract_from(data@, j + k) == Some((Seq::<Seq<u8>>::empty(), Seq::<u32>::empty())));
        assert(tap_extract_err(data@, j + k) == Seq::<char>::empty());
        return TapScanStep::End;
    }
    TapScanStep::Skip(j + k as usize)
}

impl TzxPlayer {
    /// Extract the standard-speed (`0x10`) payloads as a TAP image; a block
    /// that cannot be read linearly fails with the message that
    /// [`tzx_tap_err`] names.
    pub fn to_tap_image(data: &[u8]) -> (r: Result<TapImage, TzxError>)
        ensures
            match tzx_tap_extract(data@) {
                Some((b, p)) => r matches Ok(img) && blocks_view(img.blocks@) == b && img.pause_t@ == p,
                None => r matches Err(TzxError::Format(m)) && m@ == tzx_tap_err(data@),
            },
    {
        if data.len() < 10 || !has_tzx_signature(data) {
            return Err(TzxError::Format("missing TZX signature".to_owned()));
        }
        let mut blocks: Vec<Vec<u8>> = Vec::new();
        let mut pause_t: Vec<u32> = Vec::new();
        let n = data.len();
        let mut i: usize = 10;
        assert(blocks_view(blocks@) =~= Seq::<Seq<u8>>::empty());
        assert(blocks_view(blocks@) + Seq::<Seq<u8>>::empty() =~= Seq::<Seq<u8>>::empty());
        assert(pause_t@ + Seq::<u32>::empty() =~= Seq::<u32>::empty());
        while i < n
            invariant
                n == data@.len(),
                tzx_tap_extract(data@) == (match tap_extract_from(data@, i as int) {
                    None => None,
                    Some((b, p)) => Some((blocks_view(blocks@) + b, pause_t@ + p)),
                }),
                tzx_tap_err(data@) == tap_extract_err(data@, i as int),
            decreases n - i,
        {
            let ghost b0 = blocks_view(blocks@);
            let ghost p0 = pause_t@;
            match tap_scan_block(data, i) {
                TapScanStep::End => {
                    proof {
                        assert(b0 + Seq::<Seq<u8>>::empty() =~= b0);
                        assert(p0 + Seq::<u32>::empty() =~= p0);
                        assert(tap_extract_from(data@, n as int) == Some((Seq::<Seq<u8>>::empty(), Seq::<u32>::empty())));
                    }
                    i = n;
                },
                TapScanStep::Fail(m) => {
                    return Err(TzxError::Format(m));
                },
                TapScanStep::Skip(e) => {
                    i = e;
                },
                TapScanStep::Payload(ms, st, e) => {
                    let block = copy_range(data, st, e);
                    blocks.push(block);
                    let t = if ms == 0 { 1 } else { ms_to_t_exec(ms) };
                    pause_t.push(t);
                    proof {
                        assert(blocks_view(blocks@) =~= b0 + seq![block@]);
                        match tap_extract_from(data@, e as int) {
                            None => {},
                            Some((b, p)) => {
                                assert(b0 + (seq![block@] + b) =~= blocks_view(blocks@) + b);
                                assert(p0 + (seq![t] + p) =~= pause_t@ + p);
                            },
                        }
                    }
                    i = e;
                },
            }
        }
        proof {
            assert(blocks_view(blocks@) + Seq::<Seq<u8>>::empty() =~= blocks_view(blocks@));
            assert(pause_t@ + Seq::<u32>::empty() =~= pause_t@);
        }
        Ok(TapImage { blocks, pause_t })
    }

    /// Standard-speed TZX as a TAP deck, keeping per-block pause lengths.
    pub fn to_tap_player(data: &[u8]) -> (r: Result<TapPlayer, TzxError>)
        ensures
            match tzx_tap_extract(data@) {
                Some((b, p)) => r matches Ok(pl) && {
                    &&& pl.wf()
                    &&& pl.blocks() == b
                    &&& pl.image.pause_t@ == p
                    &&& pl.block_pause_t@ == p
                    &&& pl.at_block_start(0)
                    &&& pl.playing
                    &&& pl.speed == 1
                    &&& !pl.experience
                },
                None => r matches Err(TzxError::Format(m)) && m@ == tzx_tap_err(data@),
            },
    {
        match Self::to_tap_image(data) {
            Err(e) => Err(e),
            Ok(img) => Ok(TapPlayer::new(img)),
        }
    }
}

} // verus!

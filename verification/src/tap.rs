//! TAP images: block framing, ROM-timed EAR pulse schedules and LD-BYTES flash-load.

use vstd::prelude::*;
use crate::ear::{
    alternate_from, data_durs, ear, lemma_emit_concat, push_data, push_pulse_tzx, push_repeat, repeat,
};

verus! {

/// Bytes of a little-endian 16-bit word at `i`.
pub open spec fn le16(data: Seq<u8>, i: int) -> int {
    data[i] as int + 256 * (data[i + 1] as int)
}

/// Block payloads of a TAP file: each block is a 16-bit little-endian length
/// followed by that many bytes. `None` when a length or a payload is truncated.
pub open spec fn tap_blocks(data: Seq<u8>) -> Option<Seq<Seq<u8>>>
    decreases data.len(),
{
    if data.len() == 0 {
        Some(Seq::empty())
    } else if data.len() < 2 {
        None
    } else {
        let len = le16(data, 0);
        let rest = data.skip(2);
        if rest.len() < len {
            None
        } else {
            match tap_blocks(rest.skip(len)) {
                Some(tail) => Some(seq![rest.take(len)] + tail),
                None => None,
            }
        }
    }
}

/// A TAP file holding `blocks`: each block after its length as a 16-bit
/// little-endian word.
pub open spec fn tap_encode(blocks: Seq<Seq<u8>>) -> Seq<u8>
    decreases blocks.len(),
{
    if blocks.len() == 0 {
        Seq::empty()
    } else {
        let b = blocks[0];
        seq![(b.len() % 256) as u8, (b.len() / 256) as u8] + b + tap_encode(blocks.skip(1))
    }
}

/// Reading a TAP file gives back the blocks it was written from.
pub proof fn lemma_tap_blocks_read_back(blocks: Seq<Seq<u8>>)
    requires
        forall|k: int| 0 <= k < blocks.len() ==> #[trigger] blocks[k].len() < 65536,
    ensures
        tap_blocks(tap_encode(blocks)) == Some(blocks),
    decreases blocks.len(),
{
    if blocks.len() == 0 {
        assert(tap_encode(blocks).len() == 0);
    } else {
        let b = blocks[0];
        let tail = blocks.skip(1);
        assert forall|k: int| 0 <= k < tail.len() implies #[trigger] tail[k].len() < 65536 by {
            assert(tail[k] == blocks[k + 1]);
        }
        lemma_tap_blocks_read_back(tail);
        let data = tap_encode(blocks);
        let r = tap_encode(tail);
        let n = b.len() as int;
        assert(data == seq![(b.len() % 256) as u8, (b.len() / 256) as u8] + b + r);
        assert((n % 256) + 256 * (n / 256) == n) by (nonlinear_arith)
            requires
                0 <= n < 65536,
        ;
        assert(data[0] == (n % 256) as u8 && data[1] == (n / 256) as u8);
        assert(le16(data, 0) == n);
        assert(data.skip(2) =~= b + r);
        assert((b + r).take(n) =~= b);
        assert((b + r).skip(n) =~= r);
        assert(seq![b] + tail =~= blocks);
    }
}

/// The byte contents of a list of byte vectors.
pub open spec fn blocks_view(blocks: Seq<Vec<u8>>) -> Seq<Seq<u8>> {
    blocks.map_values(|b: Vec<u8>| b@)
}

/// Parsed TAP image.
#[derive(Clone, Debug, Default)]
pub struct TapImage {
    pub blocks: Vec<Vec<u8>>,
    /// Pause after each block in T-states. Empty or `0` selects the TAP default pause.
    pub pause_t: Vec<u32>,
}

/// Failures loading or parsing a tape image.
#[derive(Debug)]
pub enum TapeError {
    Io(String),
    Format(String),
}

impl TapeError {
    /// The message of the error.
    pub fn to_string(&self) -> (r: String)
        ensures
            r@ == match self {
                TapeError::Io(m) => m@,
                TapeError::Format(m) => m@,
            },
    {
        match self {
            TapeError::Io(m) => m.clone(),
            TapeError::Format(m) => m.clone(),
        }
    }
}

/// Copy `data[start..end]` into a fresh vector.
pub fn copy_range(data: &[u8], start: usize, end: usize) -> (out: Vec<u8>)
    requires
        start <= end <= data@.len(),
    ensures
        out@ == data@.subrange(start as int, end as int),
{
    let mut out: Vec<u8> = Vec::new();
    let mut i = start;
    while i < end
        invariant
            start <= i <= end <= data@.len(),
            out@ == data@.subrange(start as int, i as int),
        decreases end - i,
    {
        out.push(data[i]);
        i += 1;
    }
    out
}

impl TapImage {
    pub open spec fn blocks_spec(&self) -> Seq<Seq<u8>> {
        blocks_view(self.blocks@)
    }

    /// Split raw TAP bytes into blocks.
    pub fn parse(data: &[u8]) -> (res: Result<Self, TapeError>)
        ensures
            match tap_blocks(data@) {
                Some(blocks) => res matches Ok(img) && img.blocks_spec() == blocks
                    && img.pause_t@.len() == 0,
                None => res is Err && res->Err_0 is Format,
            },
    {
        let mut blocks: Vec<Vec<u8>> = Vec::new();
        let mut pos: usize = 0;
        proof {
            assert(data@.skip(0) =~= data@);
            match tap_blocks(data@) {
                Some(t) => { assert(blocks_view(blocks@) + t =~= t); },
                None => {},
            }
        }
        while pos < data.len()
            invariant
                pos <= data@.len(),
                tap_blocks(data@) == (match tap_blocks(data@.skip(pos as int)) {
                    Some(tail) => Some(blocks_view(blocks@) + tail),
                    None => None,
                }),
            decreases data@.len() - pos,
        {
            let ghost rest = data@.skip(pos as int);
            if data.len() - pos < 2 {
                return Err(TapeError::Format("truncated TAP length".to_owned()));
            }
            let len = data[pos] as usize + 256 * (data[pos + 1] as usize);
            assert(len == le16(rest, 0));
            let start = pos + 2;
            if data.len() - start < len {
                return Err(TapeError::Format("truncated TAP block".to_owned()));
            }
            let block = copy_range(data, start, start + len);
            proof {
                assert(rest.skip(2) =~= data@.skip(start as int));
                assert(rest.skip(2).take(len as int) =~= block@);
                assert(rest.skip(2).skip(len as int) =~= data@.skip((start + len) as int));
            }
            let ghost before = blocks_view(blocks@);
            blocks.push(block);
            proof {
                assert(blocks_view(blocks@) =~= before + seq![block@]);
                match tap_blocks(data@.skip((start + len) as int)) {
                    Some(t) => {
                        assert(before + (seq![block@] + t) =~= before + seq![block@] + t);
                    },
                    None => {},
                }
            }
            pos = start + len;
        }
        proof {
            assert(data@.skip(pos as int) =~= Seq::<u8>::empty());
            assert(blocks_view(blocks@) + Seq::<Seq<u8>>::empty() =~= blocks_view(blocks@));
        }
        Ok(TapImage { blocks, pause_t: Vec::new() })
    }
}


/// `INC D / EX AF,AF' / DEC D / DI` at the ROM (and RAM-clone) LD-BYTES entry.
pub const LD_BYTES_PROLOGUE: [u8; 4] = [0x14, 0x08, 0x15, 0xF3];
/// Bytes from the LD-BYTES entry (`0x0556`) to the first `CALL LD-EDGE-1` (`0x056C`).
pub const LD_BYTES_EDGE_CALL_OFF: u16 = 0x16;
/// Spectrum ROM LD-BYTES edge-detect PC used for flash-load traps.
pub const LD_BYTES_TRAP_PC: u16 = 0x056C;
/// Pilot pulse width (T-states), matching the 48K ROM loader.
pub const PILOT_PULSE_T: u32 = 2168;
/// Pilot pulses before a header block (flag `0`).
pub const PILOT_HEADER_PULSES: u32 = 8063;
/// Pilot pulses before a data block.
pub const PILOT_DATA_PULSES: u32 = 3223;
/// First sync pulse width.
pub const SYNC1_T: u32 = 667;
/// Second sync pulse width.
pub const SYNC2_T: u32 = 735;
/// Half-period of a `0` bit.
pub const BIT0_T: u32 = 855;
/// Half-period of a `1` bit.
pub const BIT1_T: u32 = 1710;
/// Inter-block pause (about one second at 3.5 MHz).
pub const PAUSE_T: u32 = 3_500_000;
/// Abbreviated inter-block pause for the quick "experience" load.
pub const EXPERIENCE_PAUSE_T: u32 = 175_000;
/// EAR frame multiplier paired with abbreviated pauses.
pub const EXPERIENCE_EAR_SPEED: u32 = 16;

/// Bit `bit` of `b` (0 = least significant).
pub open spec fn u8_bit(b: u8, bit: u8) -> bool {
    (b >> bit) & 1u8 == 1u8
}

/// Number of pilot pulses the ROM loader expects before `block`.
pub open spec fn pilot_count(block: Seq<u8>) -> int {
    if block.len() > 0 && block[0] != 0 {
        PILOT_DATA_PULSES as int
    } else {
        PILOT_HEADER_PULSES as int
    }
}

/// ROM-timed edge durations for one TAP block followed by `pause`.
pub open spec fn rom_durations(block: Seq<u8>, pause: u32) -> Seq<u32> {
    repeat(PILOT_PULSE_T, pilot_count(block)) + seq![SYNC1_T, SYNC2_T]
        + data_durs(block, BIT0_T, BIT1_T, 8) + seq![pause]
}

/// ROM-timed pulse schedule of one TAP block: edges alternate, starting high.
pub open spec fn rom_schedule(block: Seq<u8>, pause: u32) -> Seq<(u32, bool)> {
    alternate_from(rom_durations(block, pause), true)
}

/// Pulse schedule of block `idx` of a deck (empty past the last block).
pub open spec fn tap_sched(blocks: Seq<Seq<u8>>, pauses: Seq<u32>, exp: bool, idx: int) -> Seq<(u32, bool)> {
    if 0 <= idx < blocks.len() {
        rom_schedule(blocks[idx], block_pause(pauses, idx, exp))
    } else {
        Seq::empty()
    }
}

/// Duration of the first pulse of a schedule (0 when empty).
pub open spec fn first_dur(s: Seq<(u32, bool)>) -> int {
    if s.len() > 0 { s[0].0 as int } else { 0 }
}

/// Position `(block, pulse, remaining T-states)` after consuming `dt` T-states:
/// a pulse whose remaining time is exhausted hands over to the next pulse, and
/// the last pulse of a block hands over to the first pulse of the next block.
pub open spec fn tap_run(
    blocks: Seq<Seq<u8>>,
    pauses: Seq<u32>,
    exp: bool,
    block: int,
    pi: int,
    remain: int,
    dt: int,
) -> (int, int, int)
    decreases dt, blocks.len() - block, tap_sched(blocks, pauses, exp, block).len() - pi,
{
    if dt <= 0 || block < 0 || block >= blocks.len() {
        (block, pi, remain)
    } else if remain <= 0 {
        let s = tap_sched(blocks, pauses, exp, block);
        if pi + 1 >= s.len() || pi < 0 {
            tap_run(blocks, pauses, exp, block + 1, 0, first_dur(tap_sched(blocks, pauses, exp, block + 1)), dt)
        } else {
            tap_run(blocks, pauses, exp, block, pi + 1, s[pi + 1].0 as int, dt)
        }
    } else {
        let step = if dt < remain { dt } else { remain };
        tap_run(blocks, pauses, exp, block, pi, remain - step, dt - step)
    }
}

/// Position `(block, pulse, remaining T-states)` of a playing deck after `dt`
/// T-states: [`tap_run`], with the hand-over to the next block when the last
/// pulse of a block ends exactly.
pub open spec fn tap_at(
    blocks: Seq<Seq<u8>>,
    pauses: Seq<u32>,
    exp: bool,
    block: int,
    pi: int,
    remain: int,
    dt: int,
) -> (int, int, int) {
    let (b, p, r) = tap_run(blocks, pauses, exp, block, pi, remain, dt);
    let s = tap_sched(blocks, pauses, exp, b);
    if r == 0 && s.len() > 0 && p + 1 >= s.len() {
        (b + 1, 0, first_dur(tap_sched(blocks, pauses, exp, b + 1)))
    } else {
        (b, p, r)
    }
}

/// Running `a` and then `b` T-states is running `a + b` T-states.
pub proof fn lemma_tap_run_compose(
    blocks: Seq<Seq<u8>>,
    pauses: Seq<u32>,
    exp: bool,
    block: int,
    pi: int,
    remain: int,
    a: int,
    b: int,
)
    requires
        a >= 0,
        b >= 0,
    ensures
        ({
            let (b1, p1, r1) = tap_run(blocks, pauses, exp, block, pi, remain, a);
            tap_run(blocks, pauses, exp, b1, p1, r1, b) == tap_run(blocks, pauses, exp, block, pi, remain, a + b)
        }),
    decreases a, blocks.len() - block, tap_sched(blocks, pauses, exp, block).len() - pi,
{
    if a == 0 || block < 0 || block >= blocks.len() {
    } else if remain <= 0 {
        let s = tap_sched(blocks, pauses, exp, block);
        if pi + 1 >= s.len() || pi < 0 {
            lemma_tap_run_compose(blocks, pauses, exp, block + 1, 0, first_dur(tap_sched(blocks, pauses, exp, block + 1)), a, b);
        } else {
            lemma_tap_run_compose(blocks, pauses, exp, block, pi + 1, s[pi + 1].0 as int, a, b);
        }
    } else if a < remain {
        assert(tap_run(blocks, pauses, exp, block, pi, remain - a, 0) == (block, pi, remain - a));
        if b > 0 && a + b >= remain {
            assert(tap_run(blocks, pauses, exp, block, pi, remain - a, b) == tap_run(blocks, pauses, exp, block, pi, 0, b - (remain - a)));
        }
    } else {
        lemma_tap_run_compose(blocks, pauses, exp, block, pi, 0, a - remain, b);
    }
}

/// Advancing a playing deck by `a` and then by `b` T-states puts it where
/// advancing by `a + b` T-states puts it, so the tape can follow the CPU in
/// steps of any size.
pub proof fn lemma_tap_advance_compose(
    blocks: Seq<Seq<u8>>,
    pauses: Seq<u32>,
    exp: bool,
    block: int,
    pi: int,
    remain: int,
    a: int,
    b: int,
)
    requires
        a >= 0,
        b >= 0,
    ensures
        ({
            let (b1, p1, r1) = tap_at(blocks, pauses, exp, block, pi, remain, a);
            tap_at(blocks, pauses, exp, b1, p1, r1, b) == tap_at(blocks, pauses, exp, block, pi, remain, a + b)
        }),
{
    lemma_tap_run_compose(blocks, pauses, exp, block, pi, remain, a, b);
    let (yb, yp, yr) = tap_run(blocks, pauses, exp, block, pi, remain, a);
    let s = tap_sched(blocks, pauses, exp, yb);
    if yr == 0 && s.len() > 0 && yp + 1 >= s.len() {
        let nb = yb + 1;
        let fd = first_dur(tap_sched(blocks, pauses, exp, nb));
        if 0 <= nb < blocks.len() {
            lemma_rom_block_shape(blocks[nb], block_pause(pauses, nb, exp));
        }
        assert(tap_run(blocks, pauses, exp, nb, 0, fd, 0) == (nb, 0int, fd));
        if b > 0 {
            assert(tap_run(blocks, pauses, exp, yb, yp, yr, b) == tap_run(blocks, pauses, exp, nb, 0, fd, b));
        }
    }
}

/// Schedules exist exactly for the blocks of the deck.
pub proof fn lemma_sched_len(blocks: Seq<Seq<u8>>, pauses: Seq<u32>, exp: bool, idx: int)
    ensures
        0 <= idx < blocks.len() ==> tap_sched(blocks, pauses, exp, idx).len() >= 3,
        !(0 <= idx < blocks.len()) ==> tap_sched(blocks, pauses, exp, idx).len() == 0,
{
}

/// The pause that follows block `idx`.
pub open spec fn block_pause(pauses: Seq<u32>, idx: int, experience: bool) -> u32 {
    if experience {
        EXPERIENCE_PAUSE_T
    } else if 0 <= idx < pauses.len() && pauses[idx] > 0 {
        pauses[idx]
    } else {
        PAUSE_T
    }
}


/// Generates EAR levels for the blocks of a TAP image (ROM timing).
#[derive(Clone, Debug)]
pub struct TapPlayer {
    pub image: TapImage,
    /// Index of the block currently playing (or next to play when idle between blocks).
    pub block: usize,
    /// When false, [`Self::advance`] does not consume pulses (deck paused).
    pub playing: bool,
    /// Pulse schedule of the current block: (duration T-states, EAR level).
    pub pulses: Vec<(u32, bool)>,
    pub pulse_i: usize,
    pub remain: u32,
    pub level: bool,
    /// Turbo multiplier kept for inspection; the schedule is always ROM-accurate.
    pub speed: u32,
    pub experience: bool,
    /// Optional per-block pause override; empty or `0` selects [`PAUSE_T`].
    pub block_pause_t: Vec<u32>,
}

impl TapPlayer {
    /// Blocks of the inserted image.
    pub open spec fn blocks(&self) -> Seq<Seq<u8>> {
        blocks_view(self.image.blocks@)
    }

    /// Schedule of block `idx` under the current pause settings.
    pub open spec fn sched(&self, idx: int) -> Seq<(u32, bool)> {
        tap_sched(self.blocks(), self.block_pause_t@, self.experience, idx)
    }

    /// Internal consistency: the queued schedule is that of `block`, and the
    /// level is the level of the active pulse (low when no block is queued).
    pub open spec fn wf(&self) -> bool {
        &&& self.block <= self.image.blocks@.len()
        &&& self.pulses@ == self.sched(self.block as int)
        &&& 1 <= self.speed <= 64
        &&& if self.pulses@.len() == 0 {
            self.pulse_i == 0 && self.remain == 0 && !self.level
        } else {
            &&& self.pulse_i < self.pulses@.len()
            &&& self.remain <= self.pulses@[self.pulse_i as int].0
            &&& self.level == self.pulses@[self.pulse_i as int].1
        }
    }

    /// `self` sits at the start of block `idx`.
    pub open spec fn at_block_start(&self, idx: int) -> bool {
        &&& self.block == idx
        &&& self.pulses@ == self.sched(idx)
        &&& self.pulse_i == 0
        &&& self.remain == first_dur(self.sched(idx))
        &&& self.level == (self.sched(idx).len() > 0)
    }

    /// The settings that decide the schedule are those of `other`.
    pub open spec fn same_tape(&self, other: &TapPlayer) -> bool {
        &&& self.image.blocks@ == other.image.blocks@
        &&& self.image.pause_t@ == other.image.pause_t@
        &&& self.block_pause_t@ == other.block_pause_t@
        &&& self.experience == other.experience
        &&& self.speed == other.speed
    }

    /// Position after advancing `dt` T-states while playing, including the
    /// hand-over to the next block when the last pulse ends exactly.
    pub open spec fn advanced(&self, dt: u32) -> (int, int, int) {
        tap_at(
            self.blocks(),
            self.block_pause_t@,
            self.experience,
            self.block as int,
            self.pulse_i as int,
            self.remain as int,
            dt as int,
        )
    }

    /// Deck at the first block, playing.
    pub fn new(image: TapImage) -> (p: Self)
        ensures
            p.wf(),
            p.image.blocks@ == image.blocks@,
            p.image.pause_t@ == image.pause_t@,
            p.block_pause_t@ == image.pause_t@,
            p.at_block_start(0),
            p.playing,
            p.speed == 1,
            !p.experience,
    {
        let pauses = copy_u32s(&image.pause_t);
        let mut p = TapPlayer {
            image,
            block: 0,
            playing: true,
            pulses: Vec::new(),
            pulse_i: 0,
            remain: 0,
            level: false,
            speed: 1,
            experience: false,
            block_pause_t: pauses,
        };
        p.queue_block(0);
        p
    }

    fn queue_block(&mut self, idx: usize)
        requires
            idx <= old(self).image.blocks@.len(),
            1 <= old(self).speed <= 64,
        ensures
            final(self).same_tape(old(self)),
            final(self).playing == old(self).playing,
            final(self).pulses@ == final(self).sched(idx as int),
            final(self).pulse_i == 0,
            final(self).remain == first_dur(final(self).sched(idx as int)),
            final(self).level == (final(self).sched(idx as int).len() > 0),
            final(self).block == old(self).block,
    {
        self.pulses.clear();
        self.pulse_i = 0;
        self.remain = 0;
        if idx >= self.image.blocks.len() {
            self.level = false;
            return;
        }
        let pause = if self.experience {
            EXPERIENCE_PAUSE_T
        } else if idx < self.block_pause_t.len() && self.block_pause_t[idx] > 0 {
            self.block_pause_t[idx]
        } else {
            PAUSE_T
        };
        let mut pulses: Vec<(u32, bool)> = Vec::new();
        let mut level = true;
        let mut force_low = false;
        let block: &Vec<u8> = &self.image.blocks[idx];
        let pilots = if block.len() > 0 && block[0] != 0 { PILOT_DATA_PULSES } else { PILOT_HEADER_PULSES };
        let ghost st0 = ear(pulses@, level, force_low);
        let ghost bl = block@;
        push_repeat(&mut pulses, &mut level, &mut force_low, PILOT_PULSE_T, pilots);
        push_pulse_tzx(&mut pulses, &mut level, &mut force_low, SYNC1_T);
        push_pulse_tzx(&mut pulses, &mut level, &mut force_low, SYNC2_T);
        push_data(&mut pulses, &mut level, &mut force_low, block.as_slice(), BIT0_T, BIT1_T, 8);
        push_pulse_tzx(&mut pulses, &mut level, &mut force_low, pause);
        proof {
            let a = repeat(PILOT_PULSE_T, pilots as int);
            let d = data_durs(bl, BIT0_T, BIT1_T, 8);
            lemma_emit_concat(st0, a, seq![SYNC1_T]);
            lemma_emit_concat(st0, a + seq![SYNC1_T], seq![SYNC2_T]);
            lemma_emit_concat(st0, a + seq![SYNC1_T] + seq![SYNC2_T], d);
            lemma_emit_concat(st0, a + seq![SYNC1_T] + seq![SYNC2_T] + d, seq![pause]);
            assert(a + seq![SYNC1_T] + seq![SYNC2_T] + d + seq![pause] =~= rom_durations(bl, pause));
            assert(self.blocks()[idx as int] == bl);
            assert(Seq::<(u32, bool)>::empty() + alternate_from(rom_durations(bl, pause), true)
                =~= alternate_from(rom_durations(bl, pause), true));
        }
        self.remain = pulses[0].0;
        self.level = pulses[0].1;
        self.pulses = pulses;
    }

    /// Set per-block pauses (T-states) aligned with the image blocks and
    /// restart the current block.
    pub fn set_block_pauses(&mut self, pause_t: Vec<u32>)
        requires
            old(self).wf(),
        ensures
            final(self).wf(),
            final(self).block_pause_t@ == pause_t@,
            final(self).image.blocks@ == old(self).image.blocks@,
            final(self).image.pause_t@ == old(self).image.pause_t@,
            final(self).experience == old(self).experience,
            final(self).speed == old(self).speed,
            final(self).playing == old(self).playing,
            final(self).at_block_start(old(self).block as int),
    {
        self.block_pause_t = pause_t;
        let b = self.block;
        self.queue_block(b);
    }

    pub fn set_playing(&mut self, playing: bool)
        ensures
            *final(self) == (TapPlayer { playing, ..*old(self) }),
    {
        self.playing = playing;
    }

    /// EAR turbo multiplier, clamped to `1..=64`; the schedule is unchanged.
    pub fn set_speed(&mut self, speed: u32)
        ensures
            *final(self) == (TapPlayer {
                speed: if speed < 1 { 1 } else if speed > 64 { 64 } else { speed },
                ..*old(self)
            }),
    {
        self.speed = if speed < 1 { 1 } else if speed > 64 { 64 } else { speed };
    }

    pub fn speed(&self) -> (r: u32)
        ensures
            r == self.speed,
    {
        self.speed
    }

    pub fn experience(&self) -> (r: bool)
        ensures
            r == self.experience,
    {
        self.experience
    }

    /// Switch abbreviated pauses on or off without restarting the current
    /// block: only the trailing pause of the queued schedule changes.
    pub fn set_experience(&mut self, experience: bool)
        requires
            old(self).wf(),
        ensures
            final(self).wf(),
            final(self).experience == experience,
            final(self).block == old(self).block,
            final(self).pulse_i == old(self).pulse_i,
            final(self).level == old(self).level,
            final(self).playing == old(self).playing,
            final(self).speed == old(self).speed,
            final(self).image.blocks@ == old(self).image.blocks@,
            final(self).image.pause_t@ == old(self).image.pause_t@,
            final(self).block_pause_t@ == old(self).block_pause_t@,
            final(self).pulses@.len() == old(self).pulses@.len(),
            forall|k: int| 0 <= k < old(self).pulses@.len() - 1 ==> final(self).pulses@[k] == old(self).pulses@[k],
            final(self).remain == (if old(self).experience != experience && old(self).pulses@.len() > 0
                && old(self).pulse_i + 1 == old(self).pulses@.len() {
                block_pause(old(self).block_pause_t@, old(self).block as int, experience)
            } else {
                old(self).remain
            }),
    {
        if self.experience == experience {
            return;
        }
        self.experience = experience;
        let pause = if experience {
            EXPERIENCE_PAUSE_T
        } else if self.block < self.block_pause_t.len() && self.block_pause_t[self.block] > 0 {
            self.block_pause_t[self.block]
        } else {
            PAUSE_T
        };
        let n = self.pulses.len();
        if n > 0 {
            let last_level = self.pulses[n - 1].1;
            self.pulses.set(n - 1, (pause, last_level));
            proof {
                let bl = self.blocks()[self.block as int];
                let p0 = block_pause(self.block_pause_t@, self.block as int, !experience);
                assert(rom_durations(bl, pause) =~= rom_durations(bl, p0).update(rom_durations(bl, p0).len() - 1, pause));
                assert(self.pulses@ =~= self.sched(self.block as int));
            }
            if self.pulse_i + 1 == n {
                self.remain = pause;
            }
        } else {
            proof {
                assert(self.pulses@ =~= self.sched(self.block as int));
            }
        }
    }

    /// Rewind to the first block and pause.
    pub fn rewind(&mut self)
        requires
            old(self).wf(),
        ensures
            final(self).wf(),
            final(self).same_tape(old(self)),
            final(self).at_block_start(0),
            !final(self).playing,
    {
        self.block = 0;
        self.playing = false;
        self.queue_block(0);
    }

    /// Number of pulses currently scheduled (including the trailing pause).
    pub fn scheduled_pulses(&self) -> (r: usize)
        ensures
            r == self.pulses@.len(),
    {
        self.pulses.len()
    }

    /// Index of the active pulse within the schedule (0 if idle).
    pub fn pulse_index(&self) -> (r: usize)
        ensures
            r == self.pulse_i,
    {
        self.pulse_i
    }

    pub fn ear_level(&self) -> (r: bool)
        ensures
            r == self.level,
    {
        self.level
    }

    /// All blocks played and nothing queued.
    pub fn finished(&self) -> (r: bool)
        ensures
            r == (self.block >= self.image.blocks@.len() && self.pulses@.len() == 0),
    {
        self.block >= self.image.blocks.len() && self.pulses.len() == 0
    }

    /// Skip the EAR bitstream of the current block.
    pub fn consume_block(&mut self)
        requires
            old(self).wf(),
        ensures
            final(self).wf(),
            final(self).same_tape(old(self)),
            final(self).playing == old(self).playing,
            final(self).at_block_start(
                if old(self).block < old(self).image.blocks@.len() { old(self).block + 1 } else { old(self).block as int },
            ),
    {
        if self.block < self.image.blocks.len() {
            self.block += 1;
        }
        let b = self.block;
        self.queue_block(b);
    }

    /// Move to block `idx` (clamped to the block count) without changing play/pause.
    pub fn rewind_to_block(&mut self, idx: usize)
        requires
            old(self).wf(),
        ensures
            final(self).wf(),
            final(self).same_tape(old(self)),
            final(self).playing == old(self).playing,
            final(self).at_block_start(
                if idx < old(self).image.blocks@.len() { idx as int } else { old(self).image.blocks@.len() as int },
            ),
    {
        let n = self.image.blocks.len();
        self.block = if idx < n { idx } else { n };
        let b = self.block;
        self.queue_block(b);
    }

    /// Advance `dt` T-states while playing; returns the current EAR level.
    /// A paused deck does not move.
    pub fn advance(&mut self, dt: u32) -> (r: bool)
        requires
            old(self).wf(),
        ensures
            final(self).wf(),
            final(self).same_tape(old(self)),
            !old(self).playing ==> *final(self) == *old(self),
            old(self).playing ==> ({
                let (b, p, rm) = old(self).advanced(dt);
                &&& final(self).block == b
                &&& final(self).pulse_i == p
                &&& final(self).remain == rm
                &&& final(self).playing == (b < old(self).image.blocks@.len())
            }),
            r == final(self).level,
    {
        if !self.playing {
            return self.level;
        }
        let ghost blocks = self.blocks();
        let ghost pauses = self.block_pause_t@;
        let ghost exp = self.experience;
        let ghost target = tap_run(blocks, pauses, exp, self.block as int, self.pulse_i as int, self.remain as int, dt as int);
        let mut dt = dt;
        let nblocks = self.image.blocks.len();
        while dt > 0 && self.pulses.len() != 0
            invariant
                nblocks == self.image.blocks@.len(),
                self.wf(),
                self.same_tape(old(self)),
                self.playing == old(self).playing,
                blocks == self.blocks(),
                pauses == self.block_pause_t@,
                exp == self.experience,
                target == tap_run(blocks, pauses, exp, self.block as int, self.pulse_i as int, self.remain as int, dt as int),
            decreases dt, self.image.blocks@.len() - self.block, self.pulses@.len() - self.pulse_i,
        {
            proof {
                lemma_sched_len(blocks, pauses, exp, self.block as int);
                assert(blocks.len() == self.image.blocks@.len());
            }
            let ghost (b0, p0, r0, d0) = (self.block as int, self.pulse_i as int, self.remain as int, dt as int);
            if self.remain == 0 {
                if self.pulse_i + 1 >= self.pulses.len() {
                    self.block += 1;
                    let b = self.block;
                    self.queue_block(b);
                } else {
                    self.pulse_i += 1;
                    let (r, l) = self.pulses[self.pulse_i];
                    self.remain = r;
                    self.level = l;
                    let step = if dt < self.remain { dt } else { self.remain };
                    self.remain -= step;
                    dt -= step;
                    proof {
                        assert(tap_run(blocks, pauses, exp, b0, p0, r0, d0)
                            == tap_run(blocks, pauses, exp, b0, p0 + 1, r as int, d0));
                        if r > 0 {
                            assert(tap_run(blocks, pauses, exp, b0, p0 + 1, r as int, d0)
                                == tap_run(blocks, pauses, exp, b0, p0 + 1, self.remain as int, dt as int));
                        }
                    }
                }
            } else {
                let step = if dt < self.remain { dt } else { self.remain };
                self.remain -= step;
                dt -= step;
            }
        }
        proof {
            lemma_sched_len(blocks, pauses, exp, self.block as int);
            assert(blocks.len() == self.image.blocks@.len());
        }
        if self.remain == 0 && self.pulses.len() > 0 && self.pulse_i + 1 >= self.pulses.len() {
            self.block += 1;
            let b = self.block;
            self.queue_block(b);
        }
        if self.block >= self.image.blocks.len() && self.pulses.len() == 0 {
            self.playing = false;
        }
        self.level
    }

    pub fn current_block_bytes(&self) -> (r: Option<&[u8]>)
        ensures
            r matches Some(b) ==> self.block < self.image.blocks@.len() && b@ == self.image.blocks@[self.block as int]@,
            r is None <==> self.block >= self.image.blocks@.len(),
    {
        if self.block < self.image.blocks.len() {
            Some(self.image.blocks[self.block].as_slice())
        } else {
            None
        }
    }
}

/// Copy a vector of `u32`.
pub fn copy_u32s(v: &Vec<u32>) -> (out: Vec<u32>)
    ensures
        out@ == v@,
{
    let mut out: Vec<u32> = Vec::new();
    let mut i: usize = 0;
    while i < v.len()
        invariant
            i <= v@.len(),
            out@ == v@.take(i as int),
        decreases v@.len() - i,
    {
        out.push(v[i]);
        i += 1;
        assert(out@ =~= v@.take(i as int));
    }
    assert(v@.take(v@.len() as int) =~= v@);
    out
}


/// XOR of all bytes.
pub open spec fn xor_all(s: Seq<u8>) -> u8
    decreases s.len(),
{
    if s.len() == 0 {
        0
    } else {
        xor_all(s.drop_last()) ^ s.last()
    }
}

/// A payload of whole bytes gives sixteen edges per byte.
pub proof fn lemma_data_durs_len(block: Seq<u8>, zero: u32, one: u32)
    ensures
        data_durs(block, zero, one, 8).len() == 16 * block.len(),
    decreases block.len(),
{
    if block.len() > 1 {
        lemma_data_durs_len(block.skip(1), zero, one);
    }
}

/// Edge `16 * j + m` of a payload of whole bytes is half of bit `7 - m / 2`
/// of byte `j`: `one` T-states for a 1, `zero` for a 0.
pub proof fn lemma_data_durs_at(block: Seq<u8>, zero: u32, one: u32, j: int, m: int)
    requires
        0 <= j < block.len(),
        0 <= m < 16,
    ensures
        data_durs(block, zero, one, 8)[16 * j + m] == (if u8_bit(block[j], (7 - m / 2) as u8) { one } else { zero }),
    decreases block.len(),
{
    if block.len() > 1 {
        lemma_data_durs_len(block.skip(1), zero, one);
        if j > 0 {
            lemma_data_durs_at(block.skip(1), zero, one, j - 1, m);
            assert(16 * j + m - 16 == 16 * (j - 1) + m);
        }
    }
}

/// A TAP block plays as the ROM loader expects it: the pilot tone (8063
/// pulses before a header, whose flag byte is 0; 3223 before data), the two
/// sync pulses, sixteen edges per byte, then the pause; the EAR level starts
/// high and toggles at every pulse, sync pulses included.
pub proof fn lemma_rom_block_shape(block: Seq<u8>, pause: u32)
    ensures
        pilot_count(block) == (if block.len() > 0 && block[0] != 0 { 3223int } else { 8063int }),
        rom_schedule(block, pause).len() == pilot_count(block) + 2 + 16 * block.len() + 1,
        forall|k: int| 0 <= k < pilot_count(block) ==> #[trigger] rom_schedule(block, pause)[k].0 == 2168,
        rom_schedule(block, pause)[pilot_count(block)].0 == 667,
        rom_schedule(block, pause)[pilot_count(block) + 1].0 == 735,
        forall|j: int, m: int| 0 <= j < block.len() && 0 <= m < 16 ==> #[trigger] rom_schedule(block, pause)[pilot_count(
            block,
        ) + 2 + 16 * j + m].0 == (if (block[j] >> ((7 - m / 2) as u8)) & 1u8 == 1u8 { 1710u32 } else { 855u32 }),
        rom_schedule(block, pause)[rom_schedule(block, pause).len() - 1].0 == pause,
        rom_schedule(block, pause)[0].1,
        forall|k: int| 0 < k < rom_schedule(block, pause).len() ==> #[trigger] rom_schedule(block, pause)[k].1
            != rom_schedule(block, pause)[k - 1].1,
{
    lemma_data_durs_len(block, BIT0_T, BIT1_T);
    let pc = pilot_count(block);
    let d = rom_durations(block, pause);
    let s = rom_schedule(block, pause);
    assert(d.len() == pc + 2 + 16 * block.len() + 1);
    assert forall|k: int| 0 <= k < pc implies #[trigger] s[k].0 == PILOT_PULSE_T by {
        assert(d[k] == repeat(PILOT_PULSE_T, pc)[k]);
    }
    assert(d[pc] == SYNC1_T);
    assert(d[pc + 1] == SYNC2_T);
    assert(d[d.len() - 1] == pause);
    assert forall|j: int, m: int| 0 <= j < block.len() && 0 <= m < 16 implies #[trigger] s[pc + 2 + 16 * j + m].0
        == (if (block[j] >> ((7 - m / 2) as u8)) & 1u8 == 1u8 { 1710u32 } else { 855u32 }) by {
        lemma_data_durs_at(block, BIT0_T, BIT1_T, j, m);
        assert(d[pc + 2 + 16 * j + m] == data_durs(block, BIT0_T, BIT1_T, 8)[16 * j + m]);
    }
    assert forall|k: int| 0 < k < s.len() implies #[trigger] s[k].1 != s[k - 1].1 by {
        assert(k % 2 == 0 <==> (k - 1) % 2 != 0);
    }
}

/// Appending its checksum closes a block: the XOR over the whole block is 0.
pub proof fn lemma_checksum_closes(block: Seq<u8>)
    ensures
        xor_all(block.push(xor_all(block))) == 0,
{
    let x = xor_all(block);
    assert(block.push(x).drop_last() =~= block);
    assert(x ^ x == 0) by (bit_vector);
}

/// XOR of `bytes[..end]`.
pub fn xor_prefix(bytes: &[u8], end: usize) -> (r: u8)
    requires
        end <= bytes@.len(),
    ensures
        r == xor_all(bytes@.take(end as int)),
{
    let mut acc: u8 = 0;
    let mut i: usize = 0;
    assert(bytes@.take(0) =~= Seq::<u8>::empty());
    while i < end
        invariant
            i <= end <= bytes@.len(),
            acc == xor_all(bytes@.take(i as int)),
        decreases end - i,
    {
        assert(bytes@.take(i + 1).drop_last() =~= bytes@.take(i as int));
        acc = acc ^ bytes[i];
        i += 1;
    }
    acc
}

/// XOR checksum used by TAP blocks (over flag and payload, excluding the checksum byte).
pub fn tap_checksum(bytes: &[u8]) -> (r: u8)
    ensures
        r == xor_all(bytes@),
{
    let r = xor_prefix(bytes, bytes.len());
    assert(bytes@.take(bytes@.len() as int) =~= bytes@);
    r
}

/// Memory writes of a flash-load: the payload of `block` (without its flag
/// and checksum bytes) stored from `addr` upwards, wrapping at 64 KiB.
pub open spec fn flash_writes(block: Seq<u8>, addr: u16) -> Seq<(u16, u8)> {
    if block.len() < 2 {
        Seq::empty()
    } else {
        Seq::new((block.len() - 2) as nat, |i: int| (((addr as int + i) % 65536) as u16, block[i + 1]))
    }
}

/// Flash-load: the (address, byte) writes that poke a TAP block payload into memory.
pub fn flash_load_block(block: &[u8], addr: u16) -> (writes: Vec<(u16, u8)>)
    ensures
        writes@ == flash_writes(block@, addr),
{
    let mut writes: Vec<(u16, u8)> = Vec::new();
    if block.len() < 2 {
        return writes;
    }
    let n = block.len() - 2;
    let mut i: usize = 0;
    while i < n
        invariant
            n == block@.len() - 2,
            i <= n,
            writes@ =~= flash_writes(block@, addr).take(i as int),
        decreases n - i,
    {
        let a = addr.wrapping_add((i % 65536) as u16);
        proof {
            assert(a == ((addr as int + i) % 65536) as u16) by (nonlinear_arith)
                requires
                    a as int == (addr as int + ((i as int) % 65536)) % 65536,
            ;
        }
        writes.push((a, block[i + 1]));
        i += 1;
    }
    writes
}

/// Byte at `a` of a memory image; addresses past its end read as `0`.
pub open spec fn mem_at(mem: Seq<u8>, a: int) -> u8 {
    if 0 <= a < mem.len() { mem[a] } else { 0 }
}

/// Byte at `a` of a memory image (`0` past its end).
pub fn read_at(mem: &[u8], a: u16) -> (r: u8)
    ensures
        r == mem_at(mem@, a as int),
{
    if (a as usize) < mem.len() { mem[a as usize] } else { 0 }
}

/// The LD-BYTES prologue bytes stand at `start .. start + 4`.
pub open spec fn prologue_at(mem: Seq<u8>, start: int) -> bool {
    &&& mem_at(mem, start) == 0x14u8
    &&& mem_at(mem, start + 1) == 0x08u8
    &&& mem_at(mem, start + 2) == 0x15u8
    &&& mem_at(mem, start + 3) == 0xF3u8
}

/// `pc` is the ROM LD-BYTES edge-detect call with the ROM prologue at `0x0556`,
/// or a `CALL` in RAM whose relocated copy of the prologue starts
/// [`LD_BYTES_EDGE_CALL_OFF`] bytes earlier (also in RAM).
pub open spec fn ld_bytes_trap_spec(pc: u16, mem: Seq<u8>) -> bool {
    if pc == LD_BYTES_TRAP_PC {
        prologue_at(mem, 0x0556)
    } else {
        &&& pc >= 0x4000
        &&& mem_at(mem, pc as int) == 0xCDu8
        &&& pc - 0x16 >= 0x4000
        &&& prologue_at(mem, pc - 0x16)
    }
}

fn prologue_matches(mem: &[u8], start: u16) -> (r: bool)
    requires
        start as int + 3 <= 0xFFFF,
    ensures
        r == prologue_at(mem@, start as int),
{
    read_at(mem, start) == LD_BYTES_PROLOGUE[0] && read_at(mem, start + 1) == LD_BYTES_PROLOGUE[1]
        && read_at(mem, start + 2) == LD_BYTES_PROLOGUE[2] && read_at(mem, start + 3)
        == LD_BYTES_PROLOGUE[3]
}

/// True when `pc` is the ROM LD-BYTES edge-detect or a RAM copy of the same routine.
/// `mem` is the 64 KiB address space as seen by the CPU.
pub fn is_ld_bytes_trap_pc(pc: u16, mem: &[u8]) -> (r: bool)
    ensures
        r == ld_bytes_trap_spec(pc, mem@),
{
    if pc == LD_BYTES_TRAP_PC {
        return prologue_matches(mem, 0x0556);
    }
    if pc < 0x4000 || read_at(mem, pc) != 0xCD {
        return false;
    }
    let start = pc - LD_BYTES_EDGE_CALL_OFF;
    if start < 0x4000 {
        return false;
    }
    if start > 0xFFF0 {
        assert(false);
    }
    prologue_matches(mem, start)
}

/// Result of an LD-BYTES flash-load trap.
#[derive(Clone, Copy, Debug, PartialEq, Eq, Structural)]
pub enum TapeTrapResult {
    /// No trap (deck paused).
    Ignored,
    /// Block loaded or verified; the caller returns with carry set.
    Success { addr: u16, len: u16 },
    /// Missing or mismatched block; the caller returns with carry clear.
    Failure,
}

/// Outcome of searching the deck for the block LD-BYTES asks for.
pub enum TrapScan {
    /// No block with the wanted flag remains.
    NoBlock,
    /// Block `b` has the wanted flag but a wrong length or checksum.
    Mismatch(int),
    /// Block `b` matches.
    Loaded(int),
}

/// Search from block `b`: empty blocks and blocks with another flag are skipped,
/// as the ROM loader keeps searching.
pub open spec fn trap_scan(blocks: Seq<Seq<u8>>, b: int, flag: u8, len: u16) -> TrapScan
    decreases blocks.len() - b,
{
    if b < 0 || b >= blocks.len() {
        TrapScan::NoBlock
    } else {
        let blk = blocks[b];
        if blk.len() == 0 || blk[0] != flag {
            trap_scan(blocks, b + 1, flag, len)
        } else if blk.len() != len as int + 2 || xor_all(blk.drop_last()) != blk.last() {
            TrapScan::Mismatch(b)
        } else {
            TrapScan::Loaded(b)
        }
    }
}

/// Apply the LD-BYTES trap to the deck: find the next block with flag
/// `flag_expected` and `len` data bytes (plus flag and checksum) and consume it.
/// `load` (load versus verify) is applied by the caller.
pub fn evaluate_ld_bytes_trap(
    _pc: u16,
    flag_expected: u8,
    load: bool,
    addr: u16,
    len: u16,
    player: &mut TapPlayer,
) -> (r: TapeTrapResult)
    requires
        old(player).wf(),
    ensures
        final(player).wf(),
        final(player).same_tape(old(player)),
        !old(player).playing ==> r == TapeTrapResult::Ignored && *final(player) == *old(player),
        old(player).playing ==> match trap_scan(old(player).blocks(), old(player).block as int, flag_expected, len) {
            TrapScan::NoBlock => r == TapeTrapResult::Failure && final(player).at_block_start(old(player).block as int)
                && final(player).playing,
            TrapScan::Mismatch(b) => r == TapeTrapResult::Failure && final(player).playing
                && (b == old(player).block ==> *final(player) == *old(player))
                && (b != old(player).block ==> final(player).at_block_start(b)),
            TrapScan::Loaded(b) => r == (TapeTrapResult::Success { addr, len }) && final(player).at_block_start(b + 1)
                && final(player).playing == (b + 1 < old(player).image.blocks@.len()),
        },
{
    if !player.playing {
        return TapeTrapResult::Ignored;
    }
    let _ = load;
    let start = player.block;
    let ghost blocks = player.blocks();
    loop
        invariant
            player.wf(),
            player.same_tape(old(player)),
            player.playing,
            old(player).playing,
            blocks == player.blocks(),
            blocks.len() == player.image.blocks@.len(),
            start == old(player).block,
            start <= player.block,
            trap_scan(blocks, start as int, flag_expected, len) == trap_scan(blocks, player.block as int, flag_expected, len),
            player.block == start ==> *player == *old(player),
            player.block != start ==> player.at_block_start(player.block as int),
        decreases player.image.blocks@.len() - player.block,
    {
        let nblocks = player.image.blocks.len();
        if player.block >= nblocks {
            player.rewind_to_block(start);
            return TapeTrapResult::Failure;
        }
        let b = player.block;
        let blen = player.image.blocks[b].len();
        if blen == 0 || player.image.blocks[b][0] != flag_expected {
            player.consume_block();
            continue;
        }
        if blen != len as usize + 2 {
            return TapeTrapResult::Failure;
        }
        let checksum = player.image.blocks[b][blen - 1];
        let sum = xor_prefix(player.image.blocks[b].as_slice(), blen - 1);
        proof {
            assert(blocks[b as int] == player.image.blocks@[b as int]@);
            assert(player.image.blocks@[b as int]@.take(blen - 1) =~= blocks[b as int].drop_last());
        }
        if sum != checksum {
            return TapeTrapResult::Failure;
        }
        player.consume_block();
        if player.block >= player.image.blocks.len() && player.pulses.len() == 0 {
            player.playing = false;
        }
        proof {
            lemma_sched_len(blocks, player.block_pause_t@, player.experience, player.block as int);
        }
        return TapeTrapResult::Success { addr, len };
    }
}

} // verus!

//! Machine models, the inserted tape deck and tape-load options.

use vstd::prelude::*;
use crate::tap::{TapPlayer, EXPERIENCE_EAR_SPEED};
use crate::text::cat;
use crate::tzx::{block_at, block_start, lemma_block_at_range, tzx_advanced, TzxPlayer};

verus! {

/// Errors constructing a machine (ROM size / content).
#[derive(Debug)]
pub enum MachineBuildError {
    InvalidRom(String),
}

impl MachineBuildError {
    /// `invalid ROM: {reason}`.
    pub fn to_string(&self) -> (r: String)
        ensures
            r@ == (match self {
                MachineBuildError::InvalidRom(m) => "invalid ROM: "@ + m@,
            }),
    {
        match self {
            MachineBuildError::InvalidRom(m) => cat("invalid ROM: ", m.as_str()),
        }
    }
}

/// Advance `frame_t` by `dt`; true when a display frame boundary was crossed.
/// The remainder carries over so that interrupt spacing averages one frame.
pub fn advance_frame_t(frame_t: &mut u32, dt: u32, frame_len: u32) -> (crossed: bool)
    requires
        *old(frame_t) + dt <= u32::MAX,
    ensures
        crossed == (*old(frame_t) + dt >= frame_len),
        *final(frame_t) == (if crossed { *old(frame_t) + dt - frame_len } else { *old(frame_t) + dt }),
{
    *frame_t += dt;
    if *frame_t >= frame_len {
        *frame_t -= frame_len;
        true
    } else {
        false
    }
}

/// Inserted tape image (TAP pulse player or TZX pulse player).
#[derive(Clone, Debug)]
pub enum TapeDeck {
    Tap(TapPlayer),
    Tzx(TzxPlayer),
}

impl TapeDeck {
    /// The inner player is consistent.
    pub open spec fn wf(&self) -> bool {
        match self {
            TapeDeck::Tap(t) => t.wf(),
            TapeDeck::Tzx(t) => t.wf(),
        }
    }

    /// How advancing the deck by `dt` T-states relates the deck before (`a`)
    /// and after (`b`): a paused deck stays as it was; a playing deck moves to
    /// the position of its schedule `dt` T-states on.
    pub open spec fn advance_spec(a: TapeDeck, b: TapeDeck, dt: u32) -> bool {
        match (a, b) {
            (TapeDeck::Tap(a), TapeDeck::Tap(b)) => {
                &&& b.same_tape(&a)
                &&& !a.playing ==> b == a
                &&& a.playing ==> ({
                    let (blk, p, rm) = a.advanced(dt);
                    &&& b.block == blk
                    &&& b.pulse_i == p
                    &&& b.remain == rm
                    &&& b.playing == (blk < a.image.blocks@.len())
                })
            },
            (TapeDeck::Tzx(a), TapeDeck::Tzx(b)) => {
                &&& b.pulses == a.pulses
                &&& b.block_starts == a.block_starts
                &&& !a.playing ==> b == a
                &&& a.playing ==> tzx_advanced(a, b, dt)
            },
            _ => false,
        }
    }

    /// EAR level of the inner player.
    pub open spec fn level_spec(&self) -> bool {
        match self {
            TapeDeck::Tap(t) => t.level,
            TapeDeck::Tzx(t) => t.level,
        }
    }

    /// Advance the inner player by `dt` T-states; returns the EAR level.
    pub fn advance(&mut self, dt: u32) -> (r: bool)
        requires
            old(self).wf(),
        ensures
            final(self).wf(),
            TapeDeck::advance_spec(*old(self), *final(self), dt),
            r == final(self).level_spec(),
    {
        match self {
            TapeDeck::Tap(t) => t.advance(dt),
            TapeDeck::Tzx(t) => t.advance(dt),
        }
    }

    /// Active block index.
    pub fn block(&self) -> (r: Option<usize>)
        ensures
            r == Some(match self {
                TapeDeck::Tap(t) => t.block,
                TapeDeck::Tzx(t) => t.block,
            }),
    {
        match self {
            TapeDeck::Tap(t) => Some(t.block),
            TapeDeck::Tzx(t) => Some(t.block),
        }
    }

    pub fn block_count(&self) -> (r: usize)
        ensures
            r == (match self {
                TapeDeck::Tap(t) => t.image.blocks@.len(),
                TapeDeck::Tzx(t) => t.block_starts@.len(),
            }),
    {
        match self {
            TapeDeck::Tap(t) => t.image.blocks.len(),
            TapeDeck::Tzx(t) => t.block_count(),
        }
    }

    /// Pulse position: within the schedule for TAP, within the active
    /// logical block for TZX.
    pub fn pulse_index(&self) -> (r: usize)
        ensures
            r == (match self {
                TapeDeck::Tap(t) => t.pulse_i as int,
                TapeDeck::Tzx(t) => if t.pulse_i >= block_start(t.block_starts@, t.block as int) {
                    t.pulse_i - block_start(t.block_starts@, t.block as int)
                } else {
                    0
                },
            }),
    {
        match self {
            TapeDeck::Tap(t) => t.pulse_index(),
            TapeDeck::Tzx(t) => t.active_pulse_index(),
        }
    }

    /// Pulse count: of the queued schedule for TAP, of the active logical
    /// block for TZX.
    pub fn pulse_count(&self) -> (r: usize)
        ensures
            r == (match self {
                TapeDeck::Tap(t) => t.pulses@.len() as int,
                TapeDeck::Tzx(t) => {
                    let start = block_start(t.block_starts@, t.block as int);
                    let end = if t.block + 1 < t.block_starts@.len() {
                        t.block_starts@[t.block + 1] as int
                    } else {
                        t.pulses@.len() as int
                    };
                    if end >= start { end - start } else { 0 }
                },
            }),
    {
        match self {
            TapeDeck::Tap(t) => t.scheduled_pulses(),
            TapeDeck::Tzx(t) => t.active_pulse_count(),
        }
    }

    /// The TAP player, when the deck holds one.
    pub fn as_tap_mut(&mut self) -> (r: Option<&mut TapPlayer>)
        ensures
            (*old(self) is Tap) == (r is Some),
            r matches Some(p) ==> *old(self) == TapeDeck::Tap(*p) && *final(self) == TapeDeck::Tap(*final(p)),
            r is None ==> *final(self) == *old(self),
    {
        match self {
            TapeDeck::Tap(t) => Some(t),
            TapeDeck::Tzx(_) => None,
        }
    }

    pub fn set_playing(&mut self, playing: bool)
        ensures
            *final(self) == (match *old(self) {
                TapeDeck::Tap(t) => TapeDeck::Tap(TapPlayer { playing, ..t }),
                TapeDeck::Tzx(t) => TapeDeck::Tzx(TzxPlayer { playing, ..t }),
            }),
    {
        match self {
            TapeDeck::Tap(t) => t.set_playing(playing),
            TapeDeck::Tzx(t) => t.set_playing(playing),
        }
    }

    pub fn playing(&self) -> (r: bool)
        ensures
            r == (match self {
                TapeDeck::Tap(t) => t.playing,
                TapeDeck::Tzx(t) => t.playing,
            }),
    {
        match self {
            TapeDeck::Tap(t) => t.playing,
            TapeDeck::Tzx(t) => t.playing,
        }
    }

    /// True when the deck has nothing left to play.
    pub fn finished(&self) -> (r: bool)
        ensures
            r == (match self {
                TapeDeck::Tap(t) => t.block >= t.image.blocks@.len() && t.pulses@.len() == 0,
                TapeDeck::Tzx(t) => t.pulses@.len() == 0 || t.pulse_i >= t.pulses@.len(),
            }),
    {
        match self {
            TapeDeck::Tap(t) => t.finished(),
            TapeDeck::Tzx(t) => t.finished(),
        }
    }

    /// Rewind to the start of the tape and pause.
    pub fn rewind(&mut self)
        requires
            old(self).wf(),
        ensures
            final(self).wf(),
            !final(self).playing_spec(),
            match (*old(self), *final(self)) {
                (TapeDeck::Tap(a), TapeDeck::Tap(b)) => b.same_tape(&a) && b.at_block_start(0),
                (TapeDeck::Tzx(a), TapeDeck::Tzx(b)) => b.pulses@ == a.pulses@ && b.block_starts@
                    == a.block_starts@ && b.at_start_from(0),
                _ => false,
            },
    {
        match self {
            TapeDeck::Tap(t) => t.rewind(),
            TapeDeck::Tzx(t) => t.rewind(),
        }
    }

    /// Active block index.
    pub open spec fn block_spec(&self) -> usize {
        match self {
            TapeDeck::Tap(t) => t.block,
            TapeDeck::Tzx(t) => t.block,
        }
    }

    /// Number of blocks (logical blocks for TZX).
    pub open spec fn block_count_spec(&self) -> int {
        match self {
            TapeDeck::Tap(t) => t.image.blocks@.len() as int,
            TapeDeck::Tzx(t) => t.block_starts@.len() as int,
        }
    }

    /// Pulse position as [`TapeDeck::pulse_index`] reports it.
    pub open spec fn pulse_index_spec(&self) -> int {
        match self {
            TapeDeck::Tap(t) => t.pulse_i as int,
            TapeDeck::Tzx(t) => if t.pulse_i >= block_start(t.block_starts@, t.block as int) {
                t.pulse_i - block_start(t.block_starts@, t.block as int)
            } else {
                0
            },
        }
    }

    /// Pulse count as [`TapeDeck::pulse_count`] reports it.
    pub open spec fn pulse_count_spec(&self) -> int {
        match self {
            TapeDeck::Tap(t) => t.pulses@.len() as int,
            TapeDeck::Tzx(t) => {
                let start = block_start(t.block_starts@, t.block as int);
                let end = if t.block + 1 < t.block_starts@.len() {
                    t.block_starts@[t.block + 1] as int
                } else {
                    t.pulses@.len() as int
                };
                if end >= start { end - start } else { 0 }
            },
        }
    }

    pub open spec fn playing_spec(&self) -> bool {
        match self {
            TapeDeck::Tap(t) => t.playing,
            TapeDeck::Tzx(t) => t.playing,
        }
    }
}

/// Progress never runs past its block: the reported pulse position lies
/// within the reported pulse count of a consistent deck.
pub proof fn lemma_progress_within_block(d: TapeDeck)
    requires
        d.wf(),
    ensures
        0 <= d.pulse_index_spec() <= d.pulse_count_spec(),
{
    match d {
        TapeDeck::Tap(t) => {},
        TapeDeck::Tzx(t) => {
            let b = t.block as int;
            let pi = t.pulse_i as int;
            assert(block_at(t.block_starts@, b, pi) == b);
            if b + 1 < t.block_starts@.len() {
                lemma_block_at_range(t.block_starts@, b + 1, pi);
                assert(t.block_starts@[b + 1] > pi);
            }
        },
    }
}

/// EAR speed limits.
pub open spec fn clamp_speed(speed: u32) -> u32 {
    if speed < 1 { 1 } else if speed > 64 { 64 } else { speed }
}

/// Options as [`TapeLoadOptions::normalized`] leaves them.
pub open spec fn opts_normal(o: TapeLoadOptions) -> bool {
    &&& 1 <= o.speed <= 64
    &&& o.experience_load ==> !o.flash_load && o.speed == EXPERIENCE_EAR_SPEED
}

/// The options `o` after [`TapeLoadOptions::normalized`].
pub open spec fn normalized_spec(o: TapeLoadOptions) -> TapeLoadOptions {
    if o.experience_load {
        TapeLoadOptions { flash_load: false, speed: EXPERIENCE_EAR_SPEED, experience_load: true }
    } else {
        TapeLoadOptions { speed: clamp_speed(o.speed), ..o }
    }
}

/// Normalizing settles the options: normalized options are normal and stay
/// as they are when normalized again, and the options built by
/// [`TapeLoadOptions::with_speed`] and [`TapeLoadOptions::experience`] are
/// already normal.
pub proof fn lemma_normalized_settles(o: TapeLoadOptions, speed: u32)
    ensures
        opts_normal(normalized_spec(o)),
        normalized_spec(normalized_spec(o)) == normalized_spec(o),
        opts_normal(o) ==> normalized_spec(o) == o,
        opts_normal(TapeLoadOptions { speed: clamp_speed(speed), experience_load: false, ..o }),
        opts_normal(TapeLoadOptions { flash_load: false, speed: EXPERIENCE_EAR_SPEED, experience_load: true }),
{
}

/// User controls for tape loading speed and instant flash-load.
#[derive(Clone, Copy, Debug, PartialEq, Eq, Structural)]
pub struct TapeLoadOptions {
    /// TAP decks trap at LD-BYTES and poke bytes immediately.
    pub flash_load: bool,
    /// EAR bitstream speed multiplier (`1` = realtime), clamped to `1..=64`.
    pub speed: u32,
    /// Abbreviated inter-block pauses on the EAR path; excludes flash-load.
    pub experience_load: bool,
}

impl Default for TapeLoadOptions {
    /// The EAR path at realtime speed.
    fn default() -> (o: Self)
        ensures
            o == (TapeLoadOptions { flash_load: false, speed: 1, experience_load: false }),
    {
        TapeLoadOptions { flash_load: false, speed: 1, experience_load: false }
    }
}

impl TapeLoadOptions {
    /// These options at `speed` (clamped), without the experience load.
    pub fn with_speed(self, speed: u32) -> (o: Self)
        ensures
            o == (TapeLoadOptions { speed: clamp_speed(speed), experience_load: false, ..self }),
    {
        let mut o = self;
        o.speed = if speed < 1 { 1 } else if speed > 64 { 64 } else { speed };
        o.experience_load = false;
        o
    }

    /// The quick experience load: EAR path at [`EXPERIENCE_EAR_SPEED`].
    pub fn experience() -> (o: Self)
        ensures
            o == (TapeLoadOptions { flash_load: false, speed: EXPERIENCE_EAR_SPEED, experience_load: true }),
    {
        TapeLoadOptions { flash_load: false, speed: EXPERIENCE_EAR_SPEED, experience_load: true }
    }

    /// Resolve conflicting settings: the experience load wins over
    /// flash-load and fixes the speed; the speed is clamped.
    pub fn normalized(self) -> (o: Self)
        ensures
            o == normalized_spec(self),
    {
        let mut o = self;
        if o.experience_load {
            o.flash_load = false;
            o.speed = EXPERIENCE_EAR_SPEED;
        } else if o.flash_load {
            o.experience_load = false;
        }
        o.speed = if o.speed < 1 { 1 } else if o.speed > 64 { 64 } else { o.speed };
        o
    }
}

/// Tape position for UI progress (block and pulse within the current schedule).
#[derive(Clone, Copy, Debug, Default, PartialEq, Eq, Structural)]
pub struct TapeProgress {
    pub block_index: u32,
    pub block_count: u32,
    pub pulse_index: u32,
    pub pulse_count: u32,
}

/// Machine model.
#[derive(Clone, Copy, Debug, PartialEq, Eq, Structural)]
pub enum Model {
    /// 16 KiB RAM, same ROM and 48K ULA timing as 48K.
    Spectrum16K,
    Spectrum48,
    Spectrum128,
    /// Amstrad grey +2 (128K hardware, +2 ROM / menu).
    SpectrumPlus2,
    /// Amstrad +2A (gate array `1FFD`, no disk interface).
    SpectrumPlus2A,
    /// Amstrad +3 (same gate array with a disk controller).
    SpectrumPlus3,
    /// +3e (enhanced +3 ROM set).
    SpectrumPlus3e,
    /// Pentagon 128 clone: user ROM and TR-DOS, distinct timing.
    Pentagon128,
    /// Timex TC2048: 48K-class with SCLD ports.
    TimexTC2048,
    /// Timex TS2068 / TC2068: home ROM and EX-ROM, horizontal MMU, AY.
    TimexTS2068,
}

impl Model {
    /// +2A or +3 (shared Amstrad gate array).
    /// The +3e belongs to none of the three classes (`is_48k_class`,
    /// `is_128k_class`, `is_amstrad_plus`): its bus is not modelled here.
    pub fn is_amstrad_plus(self) -> (r: bool)
        ensures
            r == (self is SpectrumPlus2A || self is SpectrumPlus3),
    {
        match self {
            Model::SpectrumPlus2A | Model::SpectrumPlus3 => true,
            _ => false,
        }
    }

    /// 128K-class bus (Sinclair 128, grey +2, Pentagon banking).
    /// The +3e belongs to none of the three classes (`is_48k_class`,
    /// `is_128k_class`, `is_amstrad_plus`): its bus is not modelled here.
    pub fn is_128k_class(self) -> (r: bool)
        ensures
            r == (self is Spectrum128 || self is SpectrumPlus2 || self is Pentagon128),
    {
        match self {
            Model::Spectrum128 | Model::SpectrumPlus2 | Model::Pentagon128 => true,
            _ => false,
        }
    }

    /// 48K-class bus (16K, 48K, Timex).
    /// The +3e belongs to none of the three classes (`is_48k_class`,
    /// `is_128k_class`, `is_amstrad_plus`): its bus is not modelled here.
    pub fn is_48k_class(self) -> (r: bool)
        ensures
            r == (self is Spectrum16K || self is Spectrum48 || self is TimexTC2048 || self is TimexTS2068),
    {
        match self {
            Model::Spectrum16K | Model::Spectrum48 | Model::TimexTC2048 | Model::TimexTS2068 => true,
            _ => false,
        }
    }
}


/// The configuration flags of the three machine families, from which the
/// model follows.
#[derive(Clone, Copy, Debug, PartialEq, Eq, Structural)]
pub enum MachineKind {
    /// 48K-class bus: Timex TS2068, Timex TC2048, 16K RAM, or plain 48K.
    Spec48 { timex_2068: bool, timex: bool, ram16k: bool },
    /// 128K-class bus: Pentagon banking or the grey +2 ROM.
    Spec128 { pentagon: bool, plus2_rom: bool },
    /// Amstrad gate array, with or without the disk interface.
    SpecPlus3 { disk_interface: bool },
}

impl MachineKind {
    /// The model of a machine of this kind; the Timex flags take precedence
    /// over the 16K RAM flag, and Pentagon over the +2 ROM.
    pub fn model(self) -> (m: Model)
        ensures
            m == (match self {
                MachineKind::Spec48 { timex_2068, timex, ram16k } => if timex_2068 {
                    Model::TimexTS2068
                } else if timex {
                    Model::TimexTC2048
                } else if ram16k {
                    Model::Spectrum16K
                } else {
                    Model::Spectrum48
                },
                MachineKind::Spec128 { pentagon, plus2_rom } => if pentagon {
                    Model::Pentagon128
                } else if plus2_rom {
                    Model::SpectrumPlus2
                } else {
                    Model::Spectrum128
                },
                MachineKind::SpecPlus3 { disk_interface } => if disk_interface {
                    Model::SpectrumPlus3
                } else {
                    Model::SpectrumPlus2A
                },
            }),
    {
        match self {
            MachineKind::Spec48 { timex_2068, timex, ram16k } => {
                if timex_2068 {
                    Model::TimexTS2068
                } else if timex {
                    Model::TimexTC2048
                } else if ram16k {
                    Model::Spectrum16K
                } else {
                    Model::Spectrum48
                }
            },
            MachineKind::Spec128 { pentagon, plus2_rom } => {
                if pentagon {
                    Model::Pentagon128
                } else if plus2_rom {
                    Model::SpectrumPlus2
                } else {
                    Model::Spectrum128
                }
            },
            MachineKind::SpecPlus3 { disk_interface } => {
                if disk_interface {
                    Model::SpectrumPlus3
                } else {
                    Model::SpectrumPlus2A
                }
            },
        }
    }
}

} // verus!

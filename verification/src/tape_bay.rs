//! The machine's tape bay: the inserted deck and the tape-load options, with
//! the operations that the machine offers on them, and the EAR line that the
//! deck drives.

use vstd::prelude::*;
use crate::inspect::TapeInspect;
use crate::machine::{clamp_speed, normalized_spec, opts_normal, TapeDeck, TapeLoadOptions, TapeProgress};
use crate::tap::{TapPlayer, EXPERIENCE_EAR_SPEED};
use crate::tzx::TzxPlayer;

verus! {

/// Tape deck slot of a machine and its load options.
#[derive(Clone, Debug)]
pub struct TapeBay {
    pub tape: Option<TapeDeck>,
    pub opts: TapeLoadOptions,
}

/// The deck after [`TapeBay::set_tape_playing`].
pub open spec fn deck_playing(d: TapeDeck, playing: bool) -> TapeDeck {
    match d {
        TapeDeck::Tap(t) => TapeDeck::Tap(TapPlayer { playing, ..t }),
        TapeDeck::Tzx(t) => TapeDeck::Tzx(TzxPlayer { playing, ..t }),
    }
}

/// `q` is the TAP player `p` with speed and pause settings taken from `o`;
/// its position on the tape is kept.
pub open spec fn tap_retuned(p: TapPlayer, q: TapPlayer, o: TapeLoadOptions) -> bool {
    &&& q.wf()
    &&& q.speed == o.speed
    &&& q.experience == o.experience_load
    &&& q.image.blocks@ == p.image.blocks@
    &&& q.image.pause_t@ == p.image.pause_t@
    &&& q.block_pause_t@ == p.block_pause_t@
    &&& q.block == p.block
    &&& q.pulse_i == p.pulse_i
    &&& q.level == p.level
    &&& q.playing == p.playing
}

impl TapeBay {
    /// The deck, if any, is consistent and the options are normalized.
    pub open spec fn wf(&self) -> bool {
        &&& (self.tape matches Some(d) ==> d.wf())
        &&& opts_normal(self.opts)
    }

    /// Empty bay with the default options (EAR path at realtime speed).
    pub fn new() -> (b: Self)
        ensures
            b.wf(),
            b.tape is None,
            b.opts == (TapeLoadOptions { flash_load: false, speed: 1, experience_load: false }),
    {
        TapeBay { tape: None, opts: TapeLoadOptions { flash_load: false, speed: 1, experience_load: false } }
    }

    pub fn tape_load_options(&self) -> (o: TapeLoadOptions)
        ensures
            o == self.opts,
    {
        self.opts
    }

    /// Store the normalized options and retune an inserted TAP deck (speed and
    /// experience pauses) without moving it.
    pub fn set_tape_load_options(&mut self, opts: TapeLoadOptions)
        requires
            old(self).wf(),
        ensures
            final(self).wf(),
            final(self).opts == normalized_spec(opts),
            match (old(self).tape, final(self).tape) {
                (None, None) => true,
                (Some(TapeDeck::Tzx(a)), Some(TapeDeck::Tzx(b))) => a == b,
                (Some(TapeDeck::Tap(a)), Some(TapeDeck::Tap(b))) => tap_retuned(a, b, normalized_spec(opts)),
                _ => false,
            },
    {
        let o = opts.normalized();
        self.opts = o;
        match &mut self.tape {
            Some(TapeDeck::Tap(p)) => {
                p.set_speed(o.speed);
                p.set_experience(o.experience_load);
            },
            _ => {},
        }
    }

    /// Insert a TAP deck, paused, tuned to the current options.
    pub fn insert_tape(&mut self, player: TapPlayer)
        requires
            old(self).wf(),
            player.wf(),
        ensures
            final(self).wf(),
            final(self).opts == old(self).opts,
            final(self).tape matches Some(TapeDeck::Tap(q)) && tap_retuned(
                TapPlayer { playing: false, ..player },
                q,
                old(self).opts,
            ),
    {
        let mut player = player;
        player.set_playing(false);
        let o = self.opts;
        player.set_speed(o.speed);
        player.set_experience(o.experience_load);
        self.tape = Some(TapeDeck::Tap(player));
    }

    /// Insert a TZX deck, paused.
    pub fn insert_tzx(&mut self, player: TzxPlayer)
        requires
            old(self).wf(),
            player.wf(),
        ensures
            final(self).wf(),
            final(self).opts == old(self).opts,
            final(self).tape == Some(TapeDeck::Tzx(TzxPlayer { playing: false, ..player })),
    {
        let mut player = player;
        player.set_playing(false);
        self.tape = Some(TapeDeck::Tzx(player));
    }

    /// Start or pause the inserted deck (no effect without a deck).
    pub fn set_tape_playing(&mut self, playing: bool)
        requires
            old(self).wf(),
        ensures
            final(self).wf(),
            final(self).opts == old(self).opts,
            final(self).tape == (match old(self).tape {
                Some(d) => Some(deck_playing(d, playing)),
                None => None,
            }),
    {
        match &mut self.tape {
            Some(t) => t.set_playing(playing),
            None => {},
        }
    }

    pub fn tape_playing(&self) -> (r: bool)
        ensures
            r == (self.tape matches Some(d) && d.playing_spec()),
    {
        match &self.tape {
            Some(t) => t.playing(),
            None => false,
        }
    }

    /// Rewind the inserted deck to its start, paused.
    pub fn rewind_tape(&mut self)
        requires
            old(self).wf(),
        ensures
            final(self).wf(),
            final(self).opts == old(self).opts,
            (old(self).tape is None) == (final(self).tape is None),
            match (old(self).tape, final(self).tape) {
                (Some(TapeDeck::Tap(a)), Some(TapeDeck::Tap(b))) => b.same_tape(&a) && b.at_block_start(0)
                    && !b.playing,
                (Some(TapeDeck::Tzx(a)), Some(TapeDeck::Tzx(b))) => b.pulses@ == a.pulses@
                    && b.block_starts@ == a.block_starts@ && b.at_start_from(0) && !b.playing,
                (None, None) => true,
                _ => false,
            },
    {
        match &mut self.tape {
            Some(t) => t.rewind(),
            None => {},
        }
    }

    pub fn has_tape(&self) -> (r: bool)
        ensures
            r == self.tape is Some,
    {
        self.tape.is_some()
    }

    /// Remove any inserted deck.
    pub fn eject_tape(&mut self)
        requires
            old(self).wf(),
        ensures
            final(self).wf(),
            final(self).tape is None,
            final(self).opts == old(self).opts,
    {
        self.tape = None;
    }

    /// Current block index, if a deck is inserted.
    pub fn tape_block(&self) -> (r: Option<usize>)
        ensures
            r == (match self.tape {
                Some(TapeDeck::Tap(t)) => Some(t.block),
                Some(TapeDeck::Tzx(t)) => Some(t.block),
                None => None,
            }),
    {
        match &self.tape {
            Some(t) => t.block(),
            None => None,
        }
    }

    /// True when an inserted deck has nothing left to play.
    pub fn tape_finished(&self) -> (r: bool)
        ensures
            r == (match self.tape {
                Some(TapeDeck::Tap(t)) => t.block >= t.image.blocks@.len() && t.pulses@.len() == 0,
                Some(TapeDeck::Tzx(t)) => t.pulses@.len() == 0 || t.pulse_i >= t.pulses@.len(),
                None => false,
            }),
    {
        match &self.tape {
            Some(t) => t.finished(),
            None => false,
        }
    }

    /// Spectrum frames to run per host tick: the EAR speed while a deck is
    /// actively playing on the EAR path, else one.
    pub fn ear_play_frame_reps(&self) -> (r: u32)
        ensures
            r == (if self.opts.flash_load || !(self.tape matches Some(d) && d.playing_spec()) || (match self.tape {
                Some(TapeDeck::Tap(t)) => t.block >= t.image.blocks@.len() && t.pulses@.len() == 0,
                Some(TapeDeck::Tzx(t)) => t.pulses@.len() == 0 || t.pulse_i >= t.pulses@.len(),
                None => false,
            }) {
                1
            } else {
                clamp_speed(self.opts.speed)
            }),
            1 <= r <= 64,
    {
        let o = self.opts;
        if o.flash_load || !self.tape_playing() || self.tape_finished() {
            1
        } else if o.speed < 1 {
            1
        } else if o.speed > 64 {
            64
        } else {
            o.speed
        }
    }

    /// The deck and its options for an inspect snapshot, if a deck is inserted
    /// (block counters narrowed to `u32`).
    pub fn tape_inspect(&self) -> (r: Option<TapeInspect>)
        ensures
            r == (match self.tape {
                Some(d) => Some(TapeInspect {
                    playing: d.playing_spec(),
                    flash_load: self.opts.flash_load,
                    experience_load: self.opts.experience_load,
                    speed: self.opts.speed,
                    block_index: d.block_spec() as u32,
                    block_count: d.block_count_spec() as u32,
                }),
                None => None,
            }),
    {
        match &self.tape {
            Some(t) => {
                let b = match t.block() {
                    Some(b) => b,
                    None => 0,
                };
                Some(TapeInspect {
                    playing: t.playing(),
                    flash_load: self.opts.flash_load,
                    experience_load: self.opts.experience_load,
                    speed: self.opts.speed,
                    block_index: b as u32,
                    block_count: t.block_count() as u32,
                })
            },
            None => None,
        }
    }

    /// Block and pulse counters for a progress display, if a deck is inserted
    /// (each counter narrowed to `u32`).
    pub fn tape_progress(&self) -> (r: Option<TapeProgress>)
        ensures
            r == (match self.tape {
                Some(d) => Some(TapeProgress {
                    block_index: d.block_spec() as u32,
                    block_count: d.block_count_spec() as u32,
                    pulse_index: d.pulse_index_spec() as u32,
                    pulse_count: d.pulse_count_spec() as u32,
                }),
                None => None,
            }),
    {
        match &self.tape {
            Some(t) => {
                let b = match t.block() {
                    Some(b) => b,
                    None => 0,
                };
                Some(TapeProgress {
                    block_index: b as u32,
                    block_count: t.block_count() as u32,
                    pulse_index: t.pulse_index() as u32,
                    pulse_count: t.pulse_count() as u32,
                })
            },
            None => None,
        }
    }
}

/// The edge list after a level change to `level` at `t`: a new edge unless
/// the last recorded edge already has that level.
pub open spec fn pushed_edge(edges: Seq<(u32, bool)>, t: u32, level: bool) -> Seq<(u32, bool)> {
    if edges.len() > 0 && edges.last().1 == level {
        edges
    } else {
        edges.push((t, level))
    }
}

fn push_edge(edges: &mut Vec<(u32, bool)>, t: u32, level: bool)
    ensures
        final(edges)@ == pushed_edge(old(edges)@, t, level),
{
    let n = edges.len();
    if n > 0 && edges[n - 1].1 == level {
        return;
    }
    edges.push((t, level));
}

/// Drive the EAR line to `level`; the speaker output is EAR or the beeper
/// bit, and a change of it is recorded as an edge at `frame_t`.
pub fn set_ear_mixed(ear: &mut bool, beeper: bool, frame_t: u32, edges: &mut Vec<(u32, bool)>, level: bool)
    ensures
        *final(ear) == level,
        final(edges)@ == (if *old(ear) == level {
            old(edges)@
        } else {
            pushed_edge(old(edges)@, frame_t, level || beeper)
        }),
{
    if *ear == level {
        return;
    }
    *ear = level;
    push_edge(edges, frame_t, level || beeper);
}

/// The deck does not drive EAR: no time passed, flash-load handles TAP
/// decks, or no deck is playing (the motor is off).
pub open spec fn ear_idle(tape: Option<TapeDeck>, dt: u32, flash_load: bool) -> bool {
    ||| dt == 0
    ||| (flash_load && tape matches Some(TapeDeck::Tap(_)))
    ||| !(tape matches Some(d) && d.playing_spec())
}

/// Advance a playing deck by `dt` T-states and follow its level on EAR,
/// recording speaker edges at `frame_t`.
pub fn advance_tape_ear(
    tape: &mut Option<TapeDeck>,
    ear: &mut bool,
    beeper: bool,
    edges: &mut Vec<(u32, bool)>,
    frame_t: u32,
    dt: u32,
    flash_load: bool,
)
    requires
        *old(tape) matches Some(d) ==> d.wf(),
    ensures
        *final(tape) matches Some(d) ==> d.wf(),
        ear_idle(*old(tape), dt, flash_load) ==> *final(tape) == *old(tape) && *final(ear) == *old(ear)
            && final(edges)@ == old(edges)@,
        !ear_idle(*old(tape), dt, flash_load) ==> match (*old(tape), *final(tape)) {
            (Some(a), Some(b)) => {
                &&& TapeDeck::advance_spec(a, b, dt)
                &&& *final(ear) == b.level_spec()
                &&& final(edges)@ == (if b.level_spec() == *old(ear) {
                    old(edges)@
                } else {
                    pushed_edge(old(edges)@, frame_t, beeper || b.level_spec())
                })
            },
            _ => false,
        },
{
    if dt == 0 {
        return;
    }
    match tape {
        Some(t) => {
            let is_tap = match t {
                TapeDeck::Tap(_) => true,
                TapeDeck::Tzx(_) => false,
            };
            if flash_load && is_tap {
                return;
            }
            if !t.playing() {
                return;
            }
            let new_ear = t.advance(dt);
            if new_ear != *ear {
                *ear = new_ear;
                push_edge(edges, frame_t, beeper || new_ear);
            }
        },
        None => {},
    }
}

} // verus!

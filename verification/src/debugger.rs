//! Instruction-level debugger: pause, PC breakpoints, memory and port watches.

use vstd::prelude::*;
use std::collections::VecDeque;

verus! {

/// PC stops kept for observers.
pub const PC_HIT_HISTORY: usize = 128;

/// One stop at a PC breakpoint.
#[derive(Clone, Copy, Debug, PartialEq, Eq, Structural)]
pub struct PcBreakpointHit {
    /// Monotonic stop identity.
    pub id: u64,
    /// Program counter where the breakpoint stopped execution.
    pub pc: u16,
}

/// Access watch on a memory address or I/O port.
///
/// An access matches when `(access & mask) == (addr & mask)`; `mask = 0xFFFF`
/// is an exact 16-bit match. For keyboard row polls (`IN A,(C)` with the row
/// select in the high byte), watch `addr = 0x00FE` with `mask = 0x00FF`.
#[derive(Clone, Copy, Debug, PartialEq, Eq, Structural)]
pub struct Watch {
    pub addr: u16,
    pub read: bool,
    pub write: bool,
    /// Bits compared against the accessed address or port.
    pub mask: u16,
}

impl Watch {
    /// Exact 16-bit address or port watch.
    pub fn new(addr: u16, read: bool, write: bool) -> (w: Self)
        ensures
            w == (Watch { addr, read, write, mask: 0xFFFF }),
    {
        Watch { addr, read, write, mask: 0xFFFF }
    }

    /// Masked watch.
    pub fn with_mask(addr: u16, mask: u16, read: bool, write: bool) -> (w: Self)
        ensures
            w == (Watch { addr, read, write, mask }),
    {
        Watch { addr, read, write, mask }
    }
}

/// Why execution stopped.
#[derive(Clone, Copy, Debug, PartialEq, Eq, Structural)]
pub enum BreakReason {
    NoStop,
    Pc(u16),
    Mem { addr: u16, write: bool, value: u8 },
    Port { port: u16, write: bool, value: u8 },
    Halt,
    Budget,
}

impl BreakReason {
    pub fn is_stop(self) -> (r: bool)
        ensures
            r == !(self is NoStop),
    {
        match self {
            BreakReason::NoStop => false,
            _ => true,
        }
    }
}

/// Whether an access of `addr` (a write when `write`) matches `w`.
pub open spec fn watch_matches(w: Watch, addr: u16, write: bool) -> bool {
    (addr & w.mask) == (w.addr & w.mask) && ((write && w.write) || (!write && w.read))
}

/// Whether any watch of `list` matches the access.
pub open spec fn any_watch(list: Seq<Watch>, addr: u16, write: bool) -> bool {
    exists|i: int| 0 <= i < list.len() && watch_matches(#[trigger] list[i], addr, write)
}

/// Identity of the newest stop in `hits` (0 when there is none).
pub open spec fn latest_id(hits: Seq<PcBreakpointHit>) -> u64 {
    if hits.len() == 0 { 0 } else { hits.last().id }
}

/// The history after recording `hit`: the oldest entry leaves when it is full.
pub open spec fn record_hit(hits: Seq<PcBreakpointHit>, hit: PcBreakpointHit) -> Seq<PcBreakpointHit> {
    if hits.len() >= PC_HIT_HISTORY { hits.drop_first().push(hit) } else { hits.push(hit) }
}

/// Stop identities strictly increase along the history.
pub open spec fn ids_increasing(hits: Seq<PcBreakpointHit>) -> bool {
    forall|i: int, j: int| 0 <= i < j < hits.len() ==> hits[i].id < hits[j].id
}

/// Source of PC-stop identities shared by every debugger of a process (a
/// host replacing its machine keeps it): `last` is the identity issued last,
/// `0` before the first.
#[derive(Clone, Copy, Debug, PartialEq, Eq, Structural)]
pub struct HitIds {
    pub last: u64,
}

impl HitIds {
    /// No identity issued yet.
    pub fn new() -> (ids: Self)
        ensures
            ids.last == 0,
    {
        HitIds { last: 0 }
    }
}


/// The debugger after continuing from a stop at `pc`: running, with the
/// breakpoint at `pc` skipped once.
pub open spec fn continued(d: Debugger, pc: u16) -> Debugger {
    Debugger { paused: false, skip_pc_once: Some(pc), last_hit: BreakReason::NoStop, ..d }
}

/// A check at `pc` stops: no skip is pending for `pc` and a breakpoint is set there.
pub open spec fn stops_at(d: Debugger, pc: u16) -> bool {
    d.skip_pc_once != Some(pc) && d.pc_breaks@.contains(pc)
}

/// The debugger after a check at `pc` that did not stop: a skip pending for
/// `pc` is used up.
pub open spec fn passed(d: Debugger, pc: u16) -> Debugger {
    if d.skip_pc_once == Some(pc) {
        Debugger { skip_pc_once: None, ..d }
    } else {
        d
    }
}

/// Continuing from a PC stop runs past that breakpoint exactly once: the
/// next check at the same address does not stop, and the one after it does.
pub proof fn lemma_continue_runs_past_once(d: Debugger, pc: u16)
    requires
        d.pc_breaks@.contains(pc),
    ensures
        !stops_at(continued(d, pc), pc),
        stops_at(passed(continued(d, pc), pc), pc),
{
}

/// Repeated stops get increasing identities: the identity a stop takes from
/// the shared counter is above every identity the counter issued before (so
/// above every retained one), it becomes the newest, and the history stays
/// strictly increasing.
pub proof fn lemma_hit_ids_advance(hits: Seq<PcBreakpointHit>, last: u64, pc: u16)
    requires
        last < u64::MAX,
        ids_increasing(hits),
        forall|k: int| 0 <= k < hits.len() ==> #[trigger] hits[k].id <= last,
    ensures
        forall|k: int| 0 <= k < hits.len() ==> #[trigger] hits[k].id < last + 1,
        latest_id(record_hit(hits, PcBreakpointHit { id: (last + 1) as u64, pc })) == last + 1,
        ids_increasing(record_hit(hits, PcBreakpointHit { id: (last + 1) as u64, pc })),
{
    let h = PcBreakpointHit { id: (last + 1) as u64, pc };
    let r = record_hit(hits, h);
    assert forall|i: int, j: int| 0 <= i < j < r.len() implies r[i].id < r[j].id by {
        if hits.len() >= PC_HIT_HISTORY {
            if j == r.len() - 1 {
                assert(r[i] == hits[i + 1]);
            } else {
                assert(r[i] == hits[i + 1] && r[j] == hits[j + 1]);
            }
        } else {
            if j == r.len() - 1 {
                assert(r[i] == hits[i]);
            }
        }
    }
}

/// Per-machine debugger (inactive until armed).
#[derive(Clone, Debug)]
pub struct Debugger {
    pub paused: bool,
    pub pc_breaks: Vec<u16>,
    pub mem_watches: Vec<Watch>,
    pub port_watches: Vec<Watch>,
    pub last_hit: BreakReason,
    /// Skip one PC break at this address after Continue / Step from it.
    pub skip_pc_once: Option<u16>,
    /// Retained PC stops, oldest first.
    pub pc_hits: VecDeque<PcBreakpointHit>,
}

impl Default for Debugger {
    fn default() -> (d: Self)
        ensures
            !d.paused,
            d.pc_breaks@.len() == 0,
            d.mem_watches@.len() == 0,
            d.port_watches@.len() == 0,
            d.last_hit == BreakReason::NoStop,
            d.skip_once() is None,
            d.hits().len() == 0,
    {
        Debugger {
            paused: false,
            pc_breaks: Vec::new(),
            mem_watches: Vec::new(),
            port_watches: Vec::new(),
            last_hit: BreakReason::NoStop,
            skip_pc_once: None,
            pc_hits: VecDeque::new(),
        }
    }
}

impl Debugger {
    /// Retained PC stops, oldest first.
    pub open spec fn hits(&self) -> Seq<PcBreakpointHit> {
        self.pc_hits@
    }

    /// Address whose next PC break is skipped once.
    pub open spec fn skip_once(&self) -> Option<u16> {
        self.skip_pc_once
    }

    /// The retained history is bounded and its identities strictly increase.
    pub open spec fn wf(&self) -> bool {
        &&& self.hits().len() <= PC_HIT_HISTORY
        &&& ids_increasing(self.hits())
    }

    /// Every retained identity was issued by `ids` (none is above its last).
    pub open spec fn issued_by(&self, ids: HitIds) -> bool {
        forall|k: int| 0 <= k < self.hits().len() ==> #[trigger] self.hits()[k].id <= ids.last
    }

    pub fn new() -> (d: Self)
        ensures
            d.wf(),
            !d.paused,
            d.pc_breaks@.len() == 0,
            d.mem_watches@.len() == 0,
            d.port_watches@.len() == 0,
            d.last_hit == BreakReason::NoStop,
            d.skip_once() is None,
            d.hits().len() == 0,
    {
        Self::default()
    }

    pub fn armed(&self) -> (r: bool)
        ensures
            r == (self.pc_breaks@.len() > 0 || self.mem_watches@.len() > 0 || self.port_watches@.len() > 0),
    {
        self.pc_breaks.len() > 0 || self.mem_watches.len() > 0 || self.port_watches.len() > 0
    }

    pub fn add_pc_break(&mut self, pc: u16)
        ensures
            final(self).pc_breaks@ == (if old(self).pc_breaks@.contains(pc) {
                old(self).pc_breaks@
            } else {
                old(self).pc_breaks@.push(pc)
            }),
            final(self).paused == old(self).paused,
            final(self).mem_watches == old(self).mem_watches,
            final(self).port_watches == old(self).port_watches,
            final(self).last_hit == old(self).last_hit,
            final(self).skip_once() == old(self).skip_once(),
            final(self).hits() == old(self).hits(),
    {
        if !contains_u16(&self.pc_breaks, pc) {
            self.pc_breaks.push(pc);
        }
    }

    pub fn remove_pc_break(&mut self, pc: u16)
        ensures
            final(self).pc_breaks@ == old(self).pc_breaks@.filter(|p: u16| p != pc),
            final(self).paused == old(self).paused,
            final(self).mem_watches == old(self).mem_watches,
            final(self).port_watches == old(self).port_watches,
            final(self).last_hit == old(self).last_hit,
            final(self).skip_once() == old(self).skip_once(),
            final(self).hits() == old(self).hits(),
    {
        let old_breaks = &self.pc_breaks;
        let mut kept: Vec<u16> = Vec::new();
        let mut i: usize = 0;
        let ghost pred = |p: u16| p != pc;
        assert(old_breaks@.take(0) =~= Seq::<u16>::empty());
        while i < old_breaks.len()
            invariant
                i <= old_breaks@.len(),
                kept@ == old_breaks@.take(i as int).filter(pred),
                pred == (|p: u16| p != pc),
            decreases old_breaks@.len() - i,
        {
            let p = old_breaks[i];
            proof { lemma_filter_take_step(old_breaks@, i as int, pred); }
            if p != pc {
                kept.push(p);
            }
            i += 1;
        }
        assert(old_breaks@.take(old_breaks@.len() as int) =~= old_breaks@);
        self.pc_breaks = kept;
    }

    pub fn add_mem_watch(&mut self, w: Watch)
        ensures
            final(self).mem_watches@ == old(self).mem_watches@.push(w),
            final(self).paused == old(self).paused,
            final(self).pc_breaks == old(self).pc_breaks,
            final(self).port_watches == old(self).port_watches,
            final(self).last_hit == old(self).last_hit,
            final(self).skip_once() == old(self).skip_once(),
            final(self).hits() == old(self).hits(),
    {
        self.mem_watches.push(w);
    }

    pub fn add_port_watch(&mut self, w: Watch)
        ensures
            final(self).port_watches@ == old(self).port_watches@.push(w),
            final(self).paused == old(self).paused,
            final(self).pc_breaks == old(self).pc_breaks,
            final(self).mem_watches == old(self).mem_watches,
            final(self).last_hit == old(self).last_hit,
            final(self).skip_once() == old(self).skip_once(),
            final(self).hits() == old(self).hits(),
    {
        self.port_watches.push(w);
    }

    /// Remove every memory watch on `addr`; true when one was removed.
    pub fn remove_mem_watch(&mut self, addr: u16) -> (r: bool)
        ensures
            final(self).mem_watches@ == old(self).mem_watches@.filter(|w: Watch| w.addr != addr),
            r == (final(self).mem_watches@.len() < old(self).mem_watches@.len()),
            final(self).paused == old(self).paused,
            final(self).pc_breaks == old(self).pc_breaks,
            final(self).port_watches == old(self).port_watches,
            final(self).last_hit == old(self).last_hit,
            final(self).skip_once() == old(self).skip_once(),
            final(self).hits() == old(self).hits(),
    {
        let before = self.mem_watches.len();
        let kept = without_addr(&self.mem_watches, addr);
        self.mem_watches = kept;
        self.mem_watches.len() < before
    }

    /// Remove every port watch on `addr`; true when one was removed.
    pub fn remove_port_watch(&mut self, addr: u16) -> (r: bool)
        ensures
            final(self).port_watches@ == old(self).port_watches@.filter(|w: Watch| w.addr != addr),
            r == (final(self).port_watches@.len() < old(self).port_watches@.len()),
            final(self).paused == old(self).paused,
            final(self).pc_breaks == old(self).pc_breaks,
            final(self).mem_watches == old(self).mem_watches,
            final(self).last_hit == old(self).last_hit,
            final(self).skip_once() == old(self).skip_once(),
            final(self).hits() == old(self).hits(),
    {
        let before = self.port_watches.len();
        let kept = without_addr(&self.port_watches, addr);
        self.port_watches = kept;
        self.port_watches.len() < before
    }

    pub fn clear_breaks(&mut self)
        ensures
            final(self).pc_breaks@.len() == 0,
            final(self).mem_watches@.len() == 0,
            final(self).port_watches@.len() == 0,
            final(self).last_hit == BreakReason::NoStop,
            final(self).paused == old(self).paused,
            final(self).skip_once() == old(self).skip_once(),
            final(self).hits() == old(self).hits(),
    {
        self.pc_breaks.clear();
        self.mem_watches.clear();
        self.port_watches.clear();
        self.last_hit = BreakReason::NoStop;
    }

    /// Retained PC stops newer than `id`, oldest first.
    /// Whether the retained history is well formed and every identity in it
    /// was issued by `ids` (what [`Debugger::check_pc`] needs of them).
    pub fn history_fits(&self, ids: &HitIds) -> (r: bool)
        ensures
            r == (self.wf() && self.issued_by(*ids)),
    {
        let n = self.pc_hits.len();
        let ghost hs = self.hits();
        if n > PC_HIT_HISTORY {
            return false;
        }
        let mut i: usize = 0;
        while i < n
            invariant
                n == hs.len(),
                hs == self.pc_hits@,
                i <= n,
                ids_increasing(hs.take(i as int)),
                forall|k: int| 0 <= k < i ==> #[trigger] hs[k].id <= ids.last,
            decreases n - i,
        {
            let h = self.pc_hits[i];
            if h.id > ids.last {
                assert(hs[i as int].id > ids.last);
                return false;
            }
            if i > 0 && self.pc_hits[i - 1].id >= h.id {
                assert(!(hs[i - 1].id < hs[i as int].id));
                return false;
            }
            proof {
                let t = hs.take(i + 1);
                assert forall|a: int, b: int| 0 <= a < b < t.len() implies t[a].id < t[b].id by {
                    if b < i {
                        assert(hs.take(i as int)[a] == t[a] && hs.take(i as int)[b] == t[b]);
                    } else if a < i - 1 {
                        assert(hs.take(i as int)[a].id < hs.take(i as int)[i - 1].id);
                    }
                }
            }
            i += 1;
        }
        assert(hs.take(n as int) =~= hs);
        true
    }

    pub fn pc_hits_since(&self, id: u64) -> (r: Vec<PcBreakpointHit>)
        ensures
            r@ == self.hits().filter(|h: PcBreakpointHit| h.id > id),
            self.wf() ==> ids_increasing(r@) && r@.len() <= PC_HIT_HISTORY,
    {
        let mut out: Vec<PcBreakpointHit> = Vec::new();
        let n = self.pc_hits.len();
        let mut i: usize = 0;
        let ghost hs = self.hits();
        let ghost pred = |h: PcBreakpointHit| h.id > id;
        assert(hs.take(0) =~= Seq::<PcBreakpointHit>::empty());
        while i < n
            invariant
                n == hs.len(),
                hs == self.pc_hits@,
                i <= n,
                out@ == hs.take(i as int).filter(pred),
                pred == (|h: PcBreakpointHit| h.id > id),
                out@.len() <= i,
                self.wf() ==> ids_increasing(out@),
                self.wf() ==> forall|j: int, m: int| 0 <= j < out@.len() && i <= m < n ==> #[trigger] out@[j].id
                    < #[trigger] hs[m].id,
            decreases n - i,
        {
            let h = self.pc_hits[i];
            proof { lemma_filter_take_step(hs, i as int, pred); }
            let ghost before = out@;
            if h.id > id {
                out.push(h);
                proof {
                    if self.wf() {
                        assert forall|j: int, m: int| 0 <= j < out@.len() && i + 1 <= m < n implies #[trigger] out@[j].id
                            < #[trigger] hs[m].id by {
                            if j < before.len() {
                                assert(out@[j] == before[j]);
                                assert(before[j].id < hs[i as int].id);
                            }
                        }
                        assert forall|a: int, b: int| 0 <= a < b < out@.len() implies out@[a].id < out@[b].id by {
                            if b < before.len() {
                                assert(out@[a] == before[a] && out@[b] == before[b]);
                            } else {
                                assert(out@[a] == before[a]);
                                assert(before[a].id < hs[i as int].id);
                            }
                        }
                    }
                }
            }
            i += 1;
        }
        assert(hs.take(n as int) =~= hs);
        out
    }

    /// Identity of the newest recorded PC stop, or 0 when there is none.
    pub fn latest_pc_hit_id(&self) -> (r: u64)
        ensures
            r == latest_id(self.hits()),
    {
        let n = self.pc_hits.len();
        if n == 0 { 0 } else { self.pc_hits[n - 1].id }
    }

    /// The active PC stop when execution is paused at one.
    pub fn current_pc_hit(&self) -> (r: Option<PcBreakpointHit>)
        ensures
            r == (match self.last_hit {
                BreakReason::Pc(pc) => if self.paused && self.hits().len() > 0 && self.hits().last().pc == pc {
                    Some(self.hits().last())
                } else {
                    None
                },
                _ => None,
            }),
    {
        let pc = match self.last_hit {
            BreakReason::Pc(pc) => pc,
            _ => { return None; },
        };
        if !self.paused {
            return None;
        }
        let n = self.pc_hits.len();
        if n == 0 {
            return None;
        }
        let h = self.pc_hits[n - 1];
        if h.pc == pc { Some(h) } else { None }
    }

    /// A machine reset keeps the breakpoints but ends the previous stop.
    pub fn reset_stop_state(&mut self)
        ensures
            !final(self).paused,
            final(self).last_hit == BreakReason::NoStop,
            final(self).skip_once() is None,
            final(self).pc_breaks == old(self).pc_breaks,
            final(self).mem_watches == old(self).mem_watches,
            final(self).port_watches == old(self).port_watches,
            final(self).hits() == old(self).hits(),
    {
        self.paused = false;
        self.last_hit = BreakReason::NoStop;
        self.skip_pc_once = None;
    }

    /// Continue from a PC breakpoint without immediately hitting it again.
    pub fn continue_from_pc(&mut self, pc: u16)
        ensures
            *final(self) == continued(*old(self), pc),
    {
        self.paused = false;
        self.skip_pc_once = Some(pc);
        self.last_hit = BreakReason::NoStop;
    }

    /// Start of a run until the next stop, from `pc`: a paused debugger
    /// continues past the PC stop, a running one forgets its last stop.
    pub fn begin_run(&mut self, pc: u16)
        ensures
            old(self).paused ==> *final(self) == (Debugger {
                paused: false,
                skip_pc_once: Some(pc),
                last_hit: BreakReason::NoStop,
                ..*old(self)
            }),
            !old(self).paused ==> *final(self) == (Debugger { last_hit: BreakReason::NoStop, ..*old(self) }),
    {
        if self.paused {
            self.continue_from_pc(pc);
        } else {
            self.last_hit = BreakReason::NoStop;
        }
    }

    /// Check before each instruction of a run: a paused debugger stops with
    /// its last stop; a CPU halted with interrupts disabled stops the run
    /// (and pauses); otherwise the run steps on (`None`).
    pub fn run_gate(&mut self, halted: bool, iff1: bool) -> (r: Option<BreakReason>)
        ensures
            old(self).paused ==> r == Some(old(self).last_hit) && *final(self) == *old(self),
            !old(self).paused && halted && !iff1 ==> r == Some(BreakReason::Halt) && *final(self) == (Debugger {
                paused: true,
                last_hit: BreakReason::Halt,
                ..*old(self)
            }),
            !old(self).paused && !(halted && !iff1) ==> r is None && *final(self) == *old(self),
    {
        if self.paused {
            return Some(self.last_hit);
        }
        if halted && !iff1 {
            self.paused = true;
            self.last_hit = BreakReason::Halt;
            return Some(BreakReason::Halt);
        }
        None
    }

    /// After an instruction of a run: the stop it hit, if any.
    pub fn step_stop(&self) -> (r: Option<BreakReason>)
        ensures
            r == (if self.last_hit is NoStop { None } else { Some(self.last_hit) }),
    {
        let hit = self.last_hit;
        if hit.is_stop() { Some(hit) } else { None }
    }

    /// The run's instruction budget is spent.
    pub fn budget_spent(&mut self) -> (r: BreakReason)
        ensures
            r == BreakReason::Budget,
            *final(self) == (Debugger { last_hit: BreakReason::Budget, ..*old(self) }),
    {
        self.last_hit = BreakReason::Budget;
        BreakReason::Budget
    }

    /// Record a stop at `pc` under the next identity of `ids`.
    fn record_pc_hit(&mut self, pc: u16, ids: &mut HitIds)
        requires
            old(self).wf(),
            old(self).issued_by(*old(ids)),
            old(ids).last < u64::MAX,
        ensures
            final(self).wf(),
            final(ids).last == old(ids).last + 1,
            final(self).issued_by(*final(ids)),
            final(self).hits() == record_hit(old(self).hits(), PcBreakpointHit { id: final(ids).last, pc }),
            *final(self) == (Debugger { pc_hits: final(self).pc_hits, ..*old(self) }),
    {
        ids.last = ids.last + 1;
        let id = ids.last;
        let ghost before = self.pc_hits@;
        if self.pc_hits.len() >= PC_HIT_HISTORY {
            self.pc_hits.pop_front();
        }
        self.pc_hits.push_back(PcBreakpointHit { id, pc });
        proof {
            let hit = PcBreakpointHit { id, pc };
            if before.len() >= PC_HIT_HISTORY {
                assert(self.pc_hits@ =~= before.drop_first().push(hit));
            } else {
                assert(self.pc_hits@ =~= before.push(hit));
            }
            assert forall|i: int, j: int| 0 <= i < j < self.pc_hits@.len() implies
                #[trigger] self.pc_hits@[i].id < #[trigger] self.pc_hits@[j].id by {
                if before.len() >= PC_HIT_HISTORY {
                    assert(self.pc_hits@[i] == before[i + 1]);
                    if j < self.pc_hits@.len() - 1 {
                        assert(self.pc_hits@[j] == before[j + 1]);
                    }
                } else {
                    assert(self.pc_hits@[i] == before[i]);
                    if j < self.pc_hits@.len() - 1 {
                        assert(self.pc_hits@[j] == before[j]);
                    }
                }
            }
            assert forall|k: int| 0 <= k < self.pc_hits@.len() implies #[trigger] self.pc_hits@[k].id <= ids.last by {
                if k < self.pc_hits@.len() - 1 {
                    if before.len() >= PC_HIT_HISTORY {
                        assert(self.pc_hits@[k] == before[k + 1]);
                    } else {
                        assert(self.pc_hits@[k] == before[k]);
                    }
                }
            }
        }
    }

    /// Returns true when this instruction should not run (paused at a breakpoint).
    pub fn check_pc(&mut self, pc: u16, ids: &mut HitIds) -> (r: bool)
        requires
            old(self).wf(),
            old(self).issued_by(*old(ids)),
            stops_at(*old(self), pc) ==> old(ids).last < u64::MAX,
        ensures
            final(self).wf(),
            final(self).issued_by(*final(ids)),
            r == stops_at(*old(self), pc),
            !r ==> *final(self) == passed(*old(self), pc) && *final(ids) == *old(ids),
            r ==> {
                &&& final(ids).last == old(ids).last + 1
                &&& *final(self) == (Debugger {
                    paused: true,
                    last_hit: BreakReason::Pc(pc),
                    pc_hits: final(self).pc_hits,
                    ..*old(self)
                })
                &&& final(self).hits() == record_hit(old(self).hits(), PcBreakpointHit { id: final(ids).last, pc })
            },
    {
        if self.skip_pc_once == Some(pc) {
            self.skip_pc_once = None;
            return false;
        }
        if contains_u16(&self.pc_breaks, pc) {
            self.paused = true;
            self.last_hit = BreakReason::Pc(pc);
            self.record_pc_hit(pc, ids);
            return true;
        }
        false
    }

    /// Whether an access of `addr` (a write when `write`) matches `w`.
    pub fn matches(w: Watch, addr: u16, write: bool) -> (r: bool)
        ensures
            r == watch_matches(w, addr, write),
    {
        (addr & w.mask) == (w.addr & w.mask) && ((write && w.write) || (!write && w.read))
    }

    /// Whether any watch of `list` matches the access.
    pub fn hit_watch(list: &[Watch], addr: u16, write: bool) -> (r: bool)
        ensures
            r == any_watch(list@, addr, write),
    {
        let mut i: usize = 0;
        while i < list.len()
            invariant
                i <= list@.len(),
                forall|k: int| 0 <= k < i ==> !watch_matches(#[trigger] list@[k], addr, write),
            decreases list@.len() - i,
        {
            if Self::matches(list[i], addr, write) {
                return true;
            }
            i += 1;
        }
        false
    }

    /// Record a watch or break hit: pause with `reason`.
    pub fn apply_hit(&mut self, reason: BreakReason)
        ensures
            final(self).paused,
            final(self).last_hit == reason,
            final(self).pc_breaks == old(self).pc_breaks,
            final(self).mem_watches == old(self).mem_watches,
            final(self).port_watches == old(self).port_watches,
            final(self).skip_once() == old(self).skip_once(),
            final(self).hits() == old(self).hits(),
    {
        self.paused = true;
        self.last_hit = reason;
    }

    pub fn on_mem(&mut self, addr: u16, write: bool, value: u8)
        ensures
            any_watch(old(self).mem_watches@, addr, write) ==> final(self).paused
                && final(self).last_hit == (BreakReason::Mem { addr, write, value }),
            !any_watch(old(self).mem_watches@, addr, write) ==> final(self).paused == old(self).paused
                && final(self).last_hit == old(self).last_hit,
            final(self).pc_breaks == old(self).pc_breaks,
            final(self).mem_watches == old(self).mem_watches,
            final(self).port_watches == old(self).port_watches,
            final(self).skip_once() == old(self).skip_once(),
            final(self).hits() == old(self).hits(),
    {
        if Self::hit_watch(self.mem_watches.as_slice(), addr, write) {
            self.apply_hit(BreakReason::Mem { addr, write, value });
        }
    }

    pub fn on_port(&mut self, port: u16, write: bool, value: u8)
        ensures
            any_watch(old(self).port_watches@, port, write) ==> final(self).paused
                && final(self).last_hit == (BreakReason::Port { port, write, value }),
            !any_watch(old(self).port_watches@, port, write) ==> final(self).paused == old(self).paused
                && final(self).last_hit == old(self).last_hit,
            final(self).pc_breaks == old(self).pc_breaks,
            final(self).mem_watches == old(self).mem_watches,
            final(self).port_watches == old(self).port_watches,
            final(self).skip_once() == old(self).skip_once(),
            final(self).hits() == old(self).hits(),
    {
        if Self::hit_watch(self.port_watches.as_slice(), port, write) {
            self.apply_hit(BreakReason::Port { port, write, value });
        }
    }
}

/// Filtering one more element of a prefix.
pub proof fn lemma_filter_take_step<A>(s: Seq<A>, i: int, pred: spec_fn(A) -> bool)
    requires
        0 <= i < s.len(),
    ensures
        s.take(i + 1).filter(pred) == (if pred(s[i]) {
            s.take(i).filter(pred).push(s[i])
        } else {
            s.take(i).filter(pred)
        }),
{
    assert(s.take(i + 1).drop_last() =~= s.take(i));
    assert(s.take(i + 1).last() == s[i]);
    reveal_with_fuel(Seq::filter, 1);
}

/// Whether `v` holds `x`.
pub fn contains_u16(v: &Vec<u16>, x: u16) -> (r: bool)
    ensures
        r == v@.contains(x),
{
    let mut i: usize = 0;
    while i < v.len()
        invariant
            i <= v@.len(),
            forall|k: int| 0 <= k < i ==> v@[k] != x,
        decreases v@.len() - i,
    {
        if v[i] == x {
            assert(v@[i as int] == x);
            return true;
        }
        i += 1;
    }
    false
}

/// The watches of `v` whose address is not `addr`, in order.
pub fn without_addr(v: &Vec<Watch>, addr: u16) -> (r: Vec<Watch>)
    ensures
        r@ == v@.filter(|w: Watch| w.addr != addr),
{
    let mut kept: Vec<Watch> = Vec::new();
    let mut i: usize = 0;
    let ghost pred = |w: Watch| w.addr != addr;
    assert(v@.take(0) =~= Seq::<Watch>::empty());
    while i < v.len()
        invariant
            i <= v@.len(),
            kept@ == v@.take(i as int).filter(pred),
            pred == (|w: Watch| w.addr != addr),
        decreases v@.len() - i,
    {
        let w = v[i];
        proof { lemma_filter_take_step(v@, i as int, pred); }
        if w.addr != addr {
            kept.push(w);
        }
        i += 1;
    }
    assert(v@.take(v@.len() as int) =~= v@);
    kept
}

} // verus!

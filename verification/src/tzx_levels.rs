//! EAR levels of an expanded TZX schedule: they start low and alternate,
//! except that a pause re-arms a low edge, which may repeat a low level.

use vstd::prelude::*;
use crate::ear::{alternate_from, emit, pause, start_level, EarState};
use crate::tzx_spec::{es, tzx_expand, tzx_run, tzx_step, progresses, exp_init, Exp};
use crate::tzx_frame::block_offsets;

verus! {

/// The schedule starts low, and two neighbouring pulses share a level only
/// when that level is low.
pub open spec fn levels_alternate(p: Seq<(u32, bool)>) -> bool {
    &&& p.len() > 0 ==> !p[0].1
    &&& forall|k: int| 0 < k < p.len() && (#[trigger] p[k]).1 == p[k - 1].1 ==> !p[k].1
}

/// The emitter keeps the schedule alternating: with no pulse yet the level
/// is low, otherwise it is the opposite of the last pulse.
pub open spec fn ear_inv(e: EarState) -> bool {
    &&& levels_alternate(e.pulses)
    &&& e.pulses.len() == 0 ==> !e.level
    &&& e.pulses.len() > 0 ==> e.level == !e.pulses.last().1
}

/// Block IDs whose expansion only emits edge runs and pauses (standard,
/// turbo, pure tone, pulse sequence, pure data, pause) or nothing at all
/// (loops, jumps, calls, selections, groups, text and other information).
pub open spec fn level_safe_id(id: u8) -> bool {
    (0x10 <= id <= 0x14) || (0x20 <= id <= 0x28) || id == 0x2a || id == 0x30 || id == 0x32 || id == 0x33
        || id == 0x35 || id == 0x5a
}

#[verifier::spinoff_prover]
#[verifier::rlimit(40)]
pub proof fn lemma_emit_inv(e: EarState, durs: Seq<u32>)
    requires
        ear_inv(e),
    ensures
        ear_inv(emit(e, durs)),
{
    if durs.len() > 0 {
        let first = start_level(e);
        let a = alternate_from(durs, first);
        let p = e.pulses + a;
        let n = e.pulses.len() as int;
        assert forall|k: int| 0 < k < p.len() && (#[trigger] p[k]).1 == p[k - 1].1 implies !p[k].1 by {
            if k < n {
                assert(p[k] == e.pulses[k] && p[k - 1] == e.pulses[k - 1]);
            } else if k == n {
                assert(p[k] == a[0]);
                assert(p[k - 1] == e.pulses.last());
            } else {
                assert(p[k] == a[k - n] && p[k - 1] == a[k - n - 1]);
                assert((k - n) % 2 == 0 <==> (k - n - 1) % 2 != 0);
            }
        }
        if n == 0 {
            assert(p[0] == a[0]);
        } else {
            assert(p[0] == e.pulses[0]);
        }
        assert(p.last() == a.last());
        assert((durs.len() - 1) % 2 == 0 <==> durs.len() % 2 != 0);
        assert(emit(e, durs).pulses == p);
    }
}

pub proof fn lemma_pause_inv(e: EarState, t: u32)
    requires
        ear_inv(e),
    ensures
        ear_inv(pause(e, t)),
{
    if t > 0 {
        let p = e.pulses.push((t, e.level));
        let n = e.pulses.len() as int;
        assert forall|k: int| 0 < k < p.len() && (#[trigger] p[k]).1 == p[k - 1].1 implies !p[k].1 by {
            if k < n {
                assert(p[k] == e.pulses[k] && p[k - 1] == e.pulses[k - 1]);
            } else {
                assert(p[k - 1] == e.pulses.last());
            }
        }
        if n > 0 {
            assert(p[0] == e.pulses[0]);
        }
    }
}


broadcast proof fn lemma_emit_keeps(e: EarState, durs: Seq<u32>)
    requires
        ear_inv(e),
    ensures
        ear_inv(#[trigger] emit(e, durs)),
{
    lemma_emit_inv(e, durs);
}

broadcast proof fn lemma_pause_keeps(e: EarState, t: u32)
    requires
        ear_inv(e),
    ensures
        ear_inv(#[trigger] pause(e, t)),
{
    lemma_pause_inv(e, t);
}

/// A step of the walk over a block with a level-safe ID keeps the emitter
/// invariant.
#[verifier::spinoff_prover]
#[verifier::rlimit(80)]
pub proof fn lemma_step_levels(data: Seq<u8>, offs: Seq<int>, st: Exp, bi: int)
    requires
        0 <= bi < offs.len(),
        0 <= offs[bi] < data.len(),
        level_safe_id(data[offs[bi]]),
        ear_inv(es(st)),
    ensures
        tzx_step(data, offs, st, bi) matches Some((s2, _)) ==> ear_inv(es(s2)),
{
    broadcast use lemma_emit_keeps, lemma_pause_keeps;
    reveal(tzx_step);
}

/// The walk from block `bi` keeps the emitter invariant when every block has
/// a level-safe ID.
pub proof fn lemma_run_levels(data: Seq<u8>, offs: Seq<int>, st: Exp, bi: int)
    requires
        forall|k: int| 0 <= k < offs.len() ==> 0 <= #[trigger] offs[k] < data.len() && level_safe_id(data[offs[k]]),
        ear_inv(es(st)),
    ensures
        tzx_run(data, offs, st, bi) matches Some(s2) ==> ear_inv(es(s2)),
    decreases crate::tzx_spec::budget(st), offs.len() - bi,
{
    if 0 <= bi < offs.len() {
        lemma_step_levels(data, offs, st, bi);
        match tzx_step(data, offs, st, bi) {
            None => {},
            Some((s2, b2)) => {
                if progresses(st, bi, s2, b2) {
                    lemma_run_levels(data, offs, s2, b2);
                }
            },
        }
    }
}

/// The schedule of a TZX image whose blocks all have level-safe IDs starts
/// low and alternates, except that a pause re-arms a low edge, so only a low
/// level may repeat.
pub proof fn lemma_tzx_levels_alternate(data: Seq<u8>)
    requires
        block_offsets(data) matches Some(offs) && forall|k: int| 0 <= k < offs.len() ==> level_safe_id(
            data[#[trigger] offs[k]],
        ),
    ensures
        tzx_expand(data) matches Some(st) ==> levels_alternate(st.pulses),
{
    if let Some(offs) = block_offsets(data) {
        crate::tzx_frame::lemma_offsets_in_range(data, crate::tzx_frame::TZX_HEADER_LEN as int);
        assert(ear_inv(es(exp_init())));
        lemma_run_levels(data, offs, exp_init(), 0);
    }
}

} // verus!

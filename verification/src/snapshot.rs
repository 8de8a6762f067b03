//! Loading a snapshot's registers, RAM and banks into a machine.

use vstd::prelude::*;
use crate::inspect::CpuRegs;

verus! {

/// The register values a snapshot stores (pairs as 16-bit words).
#[derive(Clone, Copy, Debug, PartialEq, Eq, Structural)]
pub struct SnapshotRegs {
    pub af: u16,
    pub bc: u16,
    pub de: u16,
    pub hl: u16,
    pub ix: u16,
    pub iy: u16,
    pub sp: u16,
    pub pc: u16,
    pub i: u8,
    pub r: u8,
    pub im: u8,
    pub iff2: bool,
    pub af_: u16,
    pub bc_: u16,
    pub de_: u16,
    pub hl_: u16,
}

/// High byte of a word.
pub open spec fn hi(w: u16) -> u8 {
    (w / 256) as u8
}

/// Low byte of a word.
pub open spec fn lo(w: u16) -> u8 {
    (w % 256) as u8
}

fn split(w: u16) -> (r: (u8, u8))
    ensures
        r == (hi(w), lo(w)),
{
    ((w / 256) as u8, (w % 256) as u8)
}

/// The registers after loading `s` into `r`: every stored register is taken
/// from the snapshot, both interrupt flip-flops from its `IFF2`; the halt
/// state and MEMPTR are kept.
pub open spec fn loaded_regs(r: CpuRegs, s: SnapshotRegs) -> CpuRegs {
    CpuRegs {
        a: hi(s.af),
        f: lo(s.af),
        b: hi(s.bc),
        c: lo(s.bc),
        d: hi(s.de),
        e: lo(s.de),
        h: hi(s.hl),
        l: lo(s.hl),
        a_: hi(s.af_),
        f_: lo(s.af_),
        b_: hi(s.bc_),
        c_: lo(s.bc_),
        d_: hi(s.de_),
        e_: lo(s.de_),
        h_: hi(s.hl_),
        l_: lo(s.hl_),
        ix: s.ix,
        iy: s.iy,
        sp: s.sp,
        pc: s.pc,
        i: s.i,
        r: s.r,
        im: s.im,
        iff1: s.iff2,
        iff2: s.iff2,
        ..r
    }
}

/// Load the snapshot's registers.
pub fn load_snapshot_regs(regs: &mut CpuRegs, s: &SnapshotRegs)
    ensures
        *final(regs) == loaded_regs(*old(regs), *s),
{
    let (a, f) = split(s.af);
    let (b, c) = split(s.bc);
    let (d, e) = split(s.de);
    let (h, l) = split(s.hl);
    let (a_, f_) = split(s.af_);
    let (b_, c_) = split(s.bc_);
    let (d_, e_) = split(s.de_);
    let (h_, l_) = split(s.hl_);
    regs.a = a;
    regs.f = f;
    regs.b = b;
    regs.c = c;
    regs.d = d;
    regs.e = e;
    regs.h = h;
    regs.l = l;
    regs.a_ = a_;
    regs.f_ = f_;
    regs.b_ = b_;
    regs.c_ = c_;
    regs.d_ = d_;
    regs.e_ = e_;
    regs.h_ = h_;
    regs.l_ = l_;
    regs.ix = s.ix;
    regs.iy = s.iy;
    regs.sp = s.sp;
    regs.pc = s.pc;
    regs.i = s.i;
    regs.r = s.r;
    regs.im = s.im;
    regs.iff1 = s.iff2;
    regs.iff2 = s.iff2;
}

/// Memory writes of a 48K snapshot's RAM image: byte `k` at `0x4000 + k`
/// (wrapping at 64 KiB).
pub open spec fn ram_writes(ram: Seq<u8>) -> Seq<(u16, u8)> {
    Seq::new(ram.len(), |k: int| (((0x4000 + k) % 65536) as u16, ram[k]))
}

pub fn snapshot_ram_writes(ram: &[u8]) -> (w: Vec<(u16, u8)>)
    ensures
        w@ == ram_writes(ram@),
{
    let mut w: Vec<(u16, u8)> = Vec::new();
    let mut k: usize = 0;
    while k < ram.len()
        invariant
            k <= ram@.len(),
            w@ =~= ram_writes(ram@).take(k as int),
        decreases ram@.len() - k,
    {
        let a = 0x4000u16.wrapping_add((k % 65536) as u16);
        proof {
            assert(a as int == (0x4000 + k as int) % 65536) by (nonlinear_arith)
                requires
                    a as int == (0x4000 + (k as int % 65536)) % 65536,
            ;
        }
        w.push((a, ram[k]));
        k += 1;
    }
    w
}

/// Banks a 48K-class machine maps from a 128K snapshot at `4000`, `8000` and
/// `C000`: banks 5 and 2, then the bank paged by `7FFD` bits 0 to 2.
pub fn banks_for_48k(page_7ffd: u8) -> (b: [usize; 3])
    ensures
        b@ == seq![5usize, 2usize, (page_7ffd & 7) as usize],
{
    let b = [5usize, 2usize, (page_7ffd & 7) as usize];
    assert(b@ =~= seq![5usize, 2usize, (page_7ffd & 7) as usize]);
    b
}

} // verus!

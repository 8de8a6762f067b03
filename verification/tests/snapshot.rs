use spec_chum::inspect::CpuRegs;
use spec_chum::snapshot::{banks_for_48k, load_snapshot_regs, snapshot_ram_writes, SnapshotRegs};

fn zero_regs() -> CpuRegs {
    CpuRegs {
        a: 0,
        f: 0,
        b: 0,
        c: 0,
        d: 0,
        e: 0,
        h: 0,
        l: 0,
        a_: 0,
        f_: 0,
        b_: 0,
        c_: 0,
        d_: 0,
        e_: 0,
        h_: 0,
        l_: 0,
        ix: 0,
        iy: 0,
        sp: 0,
        pc: 0,
        i: 0,
        r: 0,
        im: 0,
        memptr: 0x1111,
        iff1: false,
        iff2: false,
        halted: true,
    }
}

#[test]
fn snapshot_registers_split_into_bytes() {
    let mut r = zero_regs();
    let s = SnapshotRegs {
        af: 0x12ff,
        bc: 0x3456,
        de: 0x789a,
        hl: 0xbcde,
        ix: 0x1000,
        iy: 0x5c3a,
        sp: 0xff00,
        pc: 0x8000,
        i: 0x3f,
        r: 0x22,
        im: 2,
        iff2: true,
        af_: 0x0102,
        bc_: 0x0304,
        de_: 0x0506,
        hl_: 0x0708,
    };
    load_snapshot_regs(&mut r, &s);
    assert_eq!((r.a, r.f, r.b, r.c, r.d, r.e, r.h, r.l), (0x12, 0xff, 0x34, 0x56, 0x78, 0x9a, 0xbc, 0xde));
    assert_eq!((r.a_, r.f_, r.b_, r.c_, r.d_, r.e_, r.h_, r.l_), (1, 2, 3, 4, 5, 6, 7, 8));
    assert_eq!((r.ix, r.iy, r.sp, r.pc), (0x1000, 0x5c3a, 0xff00, 0x8000));
    assert_eq!((r.i, r.r, r.im), (0x3f, 0x22, 2));
    assert!(r.iff1 && r.iff2, "both flip-flops take IFF2");
    assert_eq!(r.memptr, 0x1111);
    assert!(r.halted);
}

#[test]
fn snapshot_ram_lands_from_4000() {
    let w = snapshot_ram_writes(&[1, 2, 3]);
    assert_eq!(w, vec![(0x4000, 1), (0x4001, 2), (0x4002, 3)]);
    let full = snapshot_ram_writes(&vec![0u8; 49152]);
    assert_eq!(full.last(), Some(&(0xffff, 0)));
}

#[test]
fn banks_for_48k_follow_7ffd() {
    assert_eq!(banks_for_48k(0x13), [5, 2, 3]);
    assert_eq!(banks_for_48k(0x00), [5, 2, 0]);
}

use spec_chum::inspect::{
    beta_json, hexdump, opt_u8, raster_position, stack_words, tape_json, BetaInspect, CpuRegs, Inspect, Paging, TapeInspect,
};
use spec_chum::machine::Model;

#[test]
fn tape_json_is_valid_object() {
    let t = TapeInspect {
        playing: true,
        flash_load: false,
        experience_load: false,
        speed: 1,
        block_index: 0,
        block_count: 2,
    };
    let s = tape_json(&t);
    assert!(!s.contains('/'), "{s}");
    assert!(s.contains("\"block\":0"));
    assert!(s.contains("\"blocks\":2"));
    assert!(s.starts_with('{') && s.ends_with('}'));
}

#[test]
fn tape_json_exact_text() {
    let t = TapeInspect {
        playing: false,
        flash_load: true,
        experience_load: true,
        speed: 16,
        block_index: 3,
        block_count: 12,
    };
    assert_eq!(
        tape_json(&t),
        "{\"playing\":0,\"flash_load\":1,\"experience_load\":1,\"speed\":16,\"block\":3,\"blocks\":12}"
    );
}

#[test]
fn beta_json_includes_fdc_counters() {
    let b = BetaInspect {
        paged: true,
        track: 1,
        sector: 0,
        status: 0x24,
        system: 0x3c,
        sector_read_count: 2,
        cmd_count: 40,
        recent_cmds: [0x19, 0x19, 0x80, 0x19],
        command_ring: vec![0x19, 0x80],
    };
    let s = beta_json(&b);
    assert!(s.contains("\"paged\":1"));
    assert!(s.contains("\"sector_read_count\":2"));
    assert!(s.contains("\"cmd_count\":40"));
    assert!(s.contains("\"recent_cmds\":[25,25,128,25]"));
    assert!(s.contains("\"command_ring\":[25,128]"));
}

#[test]
fn beta_json_empty_ring() {
    let b = BetaInspect {
        paged: false,
        track: 0,
        sector: 0,
        status: 0,
        system: 0,
        sector_read_count: 0,
        cmd_count: 0,
        recent_cmds: [0, 0, 0, 0],
        command_ring: vec![],
    };
    assert!(beta_json(&b).ends_with(",\"recent_cmds\":[0,0,0,0],\"command_ring\":[]}"));
}

#[test]
fn optional_byte_renders_null_or_decimal() {
    assert_eq!(opt_u8(None), "null");
    assert_eq!(opt_u8(Some(0)), "0");
    assert_eq!(opt_u8(Some(255)), "255");
}

fn sample_regs() -> CpuRegs {
    CpuRegs {
        a: 0x12,
        f: 0x34,
        b: 0x56,
        c: 0x78,
        d: 0x9a,
        e: 0xbc,
        h: 0xde,
        l: 0xf0,
        a_: 0x01,
        f_: 0x02,
        b_: 0x03,
        c_: 0x04,
        d_: 0x05,
        e_: 0x06,
        h_: 0x07,
        l_: 0x08,
        ix: 0x1234,
        iy: 0x5c3a,
        sp: 0xff4a,
        pc: 0x0038,
        i: 0x3f,
        r: 0x0a,
        im: 1,
        memptr: 0xabcd,
        iff1: true,
        iff2: false,
        halted: false,
    }
}

fn sample_inspect() -> Inspect {
    Inspect {
        model: Model::Spectrum128,
        regs: sample_regs(),
        cpu_t: 70_000,
        frame_t: 300,
        t_line: 228,
        lines: 311,
        frame_tstates: 70_908,
        raster_line: 1,
        raster_x: 72,
        int_active: false,
        int_length: 36,
        contend_at_pc: 0,
        floating_bus: None,
        border: 7,
        ear: true,
        mic: false,
        beeper: false,
        paging: Paging {
            page_7ffd: Some(0x10),
            page_1ffd: None,
            rom_bank: 1,
            ram_c000: Some(0),
            screen_bank: Some(5),
            special: false,
            locked: false,
        },
        tape: Some(TapeInspect {
            playing: true,
            flash_load: true,
            experience_load: false,
            speed: 4,
            block_index: 1,
            block_count: 3,
        }),
        ay_regs: Some([0, 1, 2, 3, 4, 5, 6, 7, 8, 9, 10, 11, 12, 13, 14, 15]),
        ay_selected: Some(7),
        beta: None,
    }
}

#[test]
fn inspect_json_lists_every_field() {
    let j = sample_inspect().to_json();
    assert_eq!(
        j,
        "{\"model\":\"128k\",\"t\":70000,\"frame_t\":300,\"line\":1,\"x\":72,\"int\":0,\"contend_pc\":0,\
\"floating_bus\":null,\"border\":7,\"ear\":1,\"beeper\":0,\
\"pc\":56,\"sp\":65354,\"af\":4660,\"bc\":22136,\"de\":39612,\"hl\":57072,\"ix\":4660,\"iy\":23610,\
\"af_\":258,\"bc_\":772,\"de_\":1286,\"hl_\":1800,\"i\":63,\"r\":10,\"im\":1,\"memptr\":43981,\
\"iff1\":1,\"iff2\":0,\"halted\":0,\
\"page_7ffd\":16,\"page_1ffd\":null,\"rom\":1,\"ram_c000\":0,\"screen\":5,\
\"tape\":{\"playing\":1,\"flash_load\":1,\"experience_load\":0,\"speed\":4,\"block\":1,\"blocks\":3},\
\"ay\":{\"selected\":7,\"regs\":[0,1,2,3,4,5,6,7,8,9,10,11,12,13,14,15]},\"beta\":null}"
    );
}

#[test]
fn inspect_text_lines() {
    let mut x = sample_inspect();
    x.beta = Some(BetaInspect {
        paged: true,
        track: 1,
        sector: 9,
        status: 0x80,
        system: 0x3c,
        sector_read_count: 12,
        cmd_count: 3,
        recent_cmds: [0x0a, 0x80, 0xff, 0x00],
        command_ring: vec![],
    });
    let t = x.to_string();
    assert_eq!(
        t,
        "model=Spectrum128 t=70000 frame_t=300 line=1 x=72 INT=0 contend_pc=0\n\
AF=1234 BC=5678 DE=9ABC HL=DEF0 IX=1234 IY=5C3A SP=FF4A PC=0038\n\
AF'=0102 BC'=0304 DE'=0506 HL'=0708 I=3F R=0A IM=1 IFF=1/0 HALT=0 MEMPTR=ABCD\n\
border=7 ear=1 beeper=0 7FFD=Some(16) 1FFD=None ROM=1 C000=Some(0)\n\
tape playing=1 flash=1 experience=0 speed=4x block=1/3\n\
beta paged=1 track=1 sector=9 status=0x80 system=0x3c sector_reads=12 cmds=3 recent=[0a, 80, ff, 00]\n"
    );
    x.tape = None;
    x.beta = None;
    assert_eq!(x.to_string().lines().count(), 4);
}

#[test]
fn hexdump_rows_and_ascii_column() {
    let mut mem = vec![0u8; 0x10000];
    mem[0x4000..0x4005].copy_from_slice(b"Hi!\x00\x7f");
    let d = hexdump(&mem, 0x4000, 5);
    assert_eq!(
        d,
        "4000  48 69 21 00 7F                                   |Hi!..|\n"
    );
    let two = hexdump(&mem, 0xFFF8, 20);
    let lines: Vec<&str> = two.lines().collect();
    assert_eq!(lines.len(), 2);
    assert!(lines[0].starts_with("FFF8  00 00"));
    assert!(lines[1].starts_with("0008  "));
    assert_eq!(hexdump(&mem, 0, 0).lines().count(), 1);
    assert_eq!(hexdump(&mem, 0, 60000).lines().count(), 256);
}

#[test]
fn stack_words_read_little_endian_upwards() {
    let mut mem = vec![0u8; 0x10000];
    mem[0xFFFE] = 0x34;
    mem[0xFFFF] = 0x12;
    mem[0x0000] = 0x78;
    mem[0x0001] = 0x56;
    assert_eq!(stack_words(&mem, 0xFFFE, 2), vec![0x1234, 0x5678]);
    assert_eq!(stack_words(&mem, 0, 100).len(), 32);
}

#[test]
fn paging_fields_follow_the_latches() {
    let p = Paging::from_7ffd(0x1b, true);
    assert_eq!(p.page_7ffd, Some(0x1b));
    assert_eq!(p.rom_bank, 1);
    assert_eq!(p.ram_c000, Some(3));
    assert_eq!(p.screen_bank, Some(7));
    assert!(p.locked);
    let q = Paging::from_7ffd(0x05, false);
    assert_eq!((q.rom_bank, q.ram_c000, q.screen_bank), (0, Some(5), Some(5)));
    let f = Paging::fixed();
    assert_eq!((f.page_7ffd, f.rom_bank, f.ram_c000), (None, 0, None));
    let a = Paging::from_plus3(0x0c, 0x04, 2, false, false);
    assert_eq!((a.page_1ffd, a.rom_bank, a.ram_c000, a.screen_bank), (Some(4), 2, Some(4), Some(7)));
}

#[test]
fn raster_position_splits_frame_time() {
    assert_eq!(raster_position(300, 224), (1, 76));
    assert_eq!(raster_position(0, 228), (0, 0));
}

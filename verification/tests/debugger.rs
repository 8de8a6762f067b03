use spec_chum::debugger::{BreakReason, Debugger, HitIds, Watch};

#[test]
fn pc_hit_ids_advance_across_repeat_stops_and_new_debuggers() {
    let mut ids = HitIds::new();
    let mut debugger = Debugger::new();
    debugger.add_pc_break(0x1234);
    assert!(debugger.check_pc(0x1234, &mut ids));
    let first = debugger.current_pc_hit().expect("first hit");
    debugger.continue_from_pc(0x1234);
    assert!(!debugger.check_pc(0x1234, &mut ids));
    assert!(debugger.check_pc(0x1234, &mut ids));
    let second = debugger.current_pc_hit().expect("repeat hit");
    assert!(second.id > first.id);
    assert_eq!(debugger.pc_hits_since(0), vec![first, second]);

    debugger.reset_stop_state();
    assert!(debugger.current_pc_hit().is_none());
    assert_eq!(debugger.pc_hits_since(0), vec![first, second]);
    assert!(debugger.check_pc(0x1234, &mut ids));
    let after_reset = debugger.current_pc_hit().expect("post-reset hit");
    assert!(after_reset.id > second.id);

    let mut replacement = Debugger::new();
    replacement.add_pc_break(0x1234);
    assert!(replacement.check_pc(0x1234, &mut ids));
    assert!(replacement.current_pc_hit().expect("new machine hit").id > after_reset.id);
}

#[test]
fn exact_mask_requires_full_port_match() {
    let w = Watch::new(0x00FE, true, false);
    assert!(Debugger::matches(w, 0x00FE, false));
    assert!(!Debugger::matches(w, 0x3CFE, false));
}

#[test]
fn low_byte_mask_matches_keyboard_row_ports() {
    let w = Watch::with_mask(0x00FE, 0x00FF, true, false);
    assert!(Debugger::matches(w, 0x00FE, false));
    assert!(Debugger::matches(w, 0x3CFE, false));
    assert!(Debugger::matches(w, 0x7FFE, false));
    assert!(!Debugger::matches(w, 0x00FF, false));
    assert!(!Debugger::matches(w, 0x3CFE, true));
}

#[test]
fn hit_ids_come_from_the_shared_counter() {
    let mut ids = HitIds { last: 499 };
    let mut d = Debugger::new();
    d.add_pc_break(0x10);
    assert!(d.check_pc(0x10, &mut ids));
    assert_eq!(d.latest_pc_hit_id(), 500);
    assert_eq!(ids.last, 500);
    d.continue_from_pc(0x10);
    assert!(!d.check_pc(0x10, &mut ids));
    assert_eq!(ids.last, 500, "a skipped check takes no identity");
    assert!(d.check_pc(0x10, &mut ids));
    assert!(d.check_pc(0x10, &mut ids));
    let got: Vec<u64> = d.pc_hits_since(0).iter().map(|h| h.id).collect();
    assert_eq!(got, vec![500, 501, 502]);
    assert_eq!(d.pc_hits_since(500).len(), 2);
}

#[test]
fn hit_history_keeps_the_newest_128() {
    let mut ids = HitIds::new();
    let mut d = Debugger::new();
    d.add_pc_break(0x20);
    for _ in 0..130u64 {
        assert!(d.check_pc(0x20, &mut ids));
    }
    let hits = d.pc_hits_since(0);
    assert_eq!(hits.len(), 128);
    assert_eq!(hits[0].id, 3);
    assert_eq!(d.latest_pc_hit_id(), 130);
}

#[test]
fn breakpoints_add_once_and_remove() {
    let mut ids = HitIds::new();
    let mut d = Debugger::new();
    assert!(!d.armed());
    d.add_pc_break(0x8000);
    d.add_pc_break(0x8000);
    assert_eq!(d.pc_breaks, vec![0x8000]);
    assert!(d.armed());
    assert!(!d.check_pc(0x8001, &mut ids));
    d.remove_pc_break(0x8000);
    assert!(d.pc_breaks.is_empty());
    assert!(!d.check_pc(0x8000, &mut ids));
}

#[test]
fn memory_watch_pauses_on_matching_write() {
    let mut d = Debugger::new();
    d.add_mem_watch(Watch::new(0x4000, false, true));
    d.on_mem(0x4000, false, 7);
    assert!(!d.paused);
    d.on_mem(0x4000, true, 7);
    assert!(d.paused);
    assert_eq!(d.last_hit, BreakReason::Mem { addr: 0x4000, write: true, value: 7 });
    assert!(d.last_hit.is_stop());
    assert!(d.remove_mem_watch(0x4000));
    assert!(!d.remove_mem_watch(0x4000));
}

#[test]
fn port_watch_and_clear() {
    let mut d = Debugger::new();
    d.add_port_watch(Watch::with_mask(0x00FE, 0x00FF, true, false));
    d.on_port(0xBFFE, false, 0x1f);
    assert_eq!(d.last_hit, BreakReason::Port { port: 0xBFFE, write: false, value: 0x1f });
    assert!(d.remove_port_watch(0x00FE));
    d.add_pc_break(1);
    d.clear_breaks();
    assert!(!d.armed());
    assert!(!d.last_hit.is_stop());
}

#[test]
fn history_fits_only_ids_the_counter_issued() {
    let mut ids = HitIds::new();
    let mut debugger = Debugger::new();
    assert!(debugger.history_fits(&ids));
    debugger.add_pc_break(0x4000);
    assert!(debugger.check_pc(0x4000, &mut ids));
    assert!(debugger.history_fits(&ids));
    assert!(!debugger.history_fits(&HitIds::new()));
}

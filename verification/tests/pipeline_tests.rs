use pddiff::pipeline::{Occupant, Pipeline, StageState};

#[test]
fn default_slot_is_bubble() {
    let s = StageState::default();
    assert_eq!(s.pc, 0);
    assert_eq!(s.occ, Occupant::Bubble);
    assert!(s.is_bubble());
}

#[test]
fn empty_pipeline_is_all_bubbles() {
    let p = Pipeline::default();
    assert!(p.f.is_bubble());
    assert!(p.d.is_bubble());
    assert!(p.e.is_bubble());
    assert!(p.m.is_bubble());
    assert!(p.w.is_bubble());
}

#[test]
fn advance_shifts_every_slot() {
    let mut p = Pipeline::empty();
    p.dumb_advance(0x100, Occupant::Instr(0x13));
    p.dumb_advance(0x104, Occupant::Instr(0x93));
    assert_eq!(p.f, StageState { pc: 0x104, occ: Occupant::Instr(0x93) });
    assert_eq!(p.d, StageState { pc: 0x100, occ: Occupant::Instr(0x13) });
    assert!(p.e.is_bubble());
    assert!(p.m.is_bubble());
    assert!(p.w.is_bubble());
}

#[test]
fn stalled_advance_holds_fetch_and_decode() {
    let mut p = Pipeline::empty();
    p.dumb_advance(0x100, Occupant::Instr(0x13));
    p.dumb_advance(0x104, Occupant::Instr(0x93));
    p.dumb_advance(0x108, Occupant::Instr(0x13));
    let f_before = p.f;
    let d_before = p.d;
    let e_before = p.e;
    p.dumb_advance_with_stalled_fetch_and_decode();
    assert_eq!(p.f, f_before);
    assert_eq!(p.d, d_before);
    assert!(p.e.is_bubble());
    assert_eq!(p.m, e_before);
}

#[test]
fn squash_empties_fetch_and_decode() {
    let mut p = Pipeline::empty();
    p.dumb_advance(0x100, Occupant::Instr(0x13));
    p.dumb_advance(0x104, Occupant::Instr(0x93));
    let e_before = p.e;
    p.squash_fetch_and_decode();
    assert!(p.f.is_bubble());
    assert!(p.d.is_bubble());
    assert_eq!(p.e, e_before);
}

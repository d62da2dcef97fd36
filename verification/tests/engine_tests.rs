use pddiff::compare::{
    compare_board, compare_sim, passed, total_errors, EngineConfig, EngineState, FatalKind, Field,
    Stage,
};
use pddiff::pipeline::Occupant;
use pddiff::record::{Cycle, DecodeRec, ExecRec, FetchRec, MemRec, RegRec, WbRec};

const NOP: u32 = 0x0000_0013; // addi x0, x0, 0
const BEQ: u32 = 0x0020_8463; // beq x1, x2, +8
const FENCE: u32 = 0x0ff0_000f; // fence iorw, iorw
const JAL: u32 = 0x0080_006f; // jal x0, +8

fn plain_cfg() -> EngineConfig {
    EngineConfig { delayed_fetch: false, writeback_only: false, jump_always_squashes: true }
}

fn delayed_cfg() -> EngineConfig {
    EngineConfig { delayed_fetch: true, writeback_only: false, jump_always_squashes: true }
}

fn npc(i: usize) -> u32 {
    0x100 + 4 * (i as u32)
}

/// A golden cycle of a straight-line stream of no-op instructions, with
/// every consistency-checked field set to what the classifier predicts for
/// the stage's occupant.
fn nop_cycle(i: usize) -> Cycle {
    Cycle {
        f: FetchRec { pc: npc(i), instr: NOP },
        d: DecodeRec {
            pc: if i >= 1 { npc(i - 1) } else { 0 },
            opcode: 0x13,
            rd: 0,
            rs1: 0,
            rs2: 0,
            funct3: 0,
            funct7: 0,
            imm: 0,
            shamt: 0,
        },
        r: RegRec { addr_rs1: 0, addr_rs2: 0, data_rs1: 7, data_rs2: 7 },
        e: ExecRec { pc: if i >= 2 { npc(i - 2) } else { 0 }, alu_result: 0, branch_taken: false },
        m: MemRec {
            pc: if i >= 3 { npc(i - 3) } else { 0 },
            addr: 0,
            read_not_write: true,
            access_size: 0,
            memory_wdata: 0,
        },
        w: WbRec { pc: if i >= 4 { npc(i - 4) } else { 0 }, we: true, addr_rd: 0, data_rd: 0 },
    }
}

fn nop_trace(n: usize) -> Vec<Cycle> {
    (0..n).map(nop_cycle).collect()
}

#[test]
fn identical_traces_pass() {
    let golden = nop_trace(8);
    let test = golden.clone();
    let r = compare_sim(&golden, &test, plain_cfg());
    assert_eq!(total_errors(&r), 0);
    assert!(passed(&r));
    assert!(r.fatal.is_none());
    assert!(r.halted.is_none());
    assert_eq!(r.cycles.len(), 8);
}

#[test]
fn single_writeback_difference_counts_once() {
    let golden = nop_trace(8);
    let mut test = golden.clone();
    // cycle 4 is the first whose writeback slot holds an instruction
    test[4].w.data_rd = 0xdead_beef;
    let r = compare_sim(&golden, &test, plain_cfg());
    assert_eq!(total_errors(&r), 1);
    assert!(!passed(&r));
    assert_eq!(r.cycles[4].fields, vec![Field::WRdData]);
    for (i, c) in r.cycles.iter().enumerate() {
        if i != 4 {
            assert!(c.fields.is_empty());
        }
    }
}

#[test]
fn zero_fetch_pc_halts_before_the_cycle() {
    let mut golden = nop_trace(6);
    golden[3].f.pc = 0;
    let mut test = nop_trace(6);
    // arbitrary garbage at and after the halting cycle must never be reported
    test[3].w.data_rd = 1;
    test[4].f.instr = 0xffff_ffff;
    test[5].d.opcode = 0x55;
    let r = compare_sim(&golden, &test, plain_cfg());
    assert_eq!(r.halted, Some(3));
    assert_eq!(r.cycles.len(), 3);
    assert_eq!(total_errors(&r), 0);
    assert!(passed(&r));
}

#[test]
fn zero_instruction_word_halts() {
    let mut golden = nop_trace(6);
    golden[2].f.instr = 0;
    let test = golden.clone();
    let r = compare_sim(&golden, &test, plain_cfg());
    assert_eq!(r.halted, Some(2));
    assert_eq!(r.cycles.len(), 2);
}

/// A golden trace whose third cycle repeats the decode program counter into
/// execute: the instruction in decode never moved, so the engine must treat
/// the cycle as stalled.
fn stalled_trace() -> Vec<Cycle> {
    let mut v = nop_trace(3);
    // cycle 2: decode still holds the instruction fetched at cycle 0, and
    // execute shows the same program counter entering: a stall.  Fetch is
    // held too, so its line repeats the cycle-1 program counter.
    v[2].f.pc = npc(1);
    v[2].d.pc = npc(0);
    v[2].e.pc = npc(0);
    v
}

#[test]
fn stall_holds_fetch_and_decode_and_bubbles_execute() {
    let golden = stalled_trace();
    let mut st = EngineState::new();
    let c0 = golden[0];
    let c1 = golden[1];
    let c2 = golden[2];
    assert!(!st.step(plain_cfg(), &c0, &c0));
    assert!(!st.step(plain_cfg(), &c1, &c1));
    let f_before = st.pipe.f;
    let d_before = st.pipe.d;
    assert!(!st.step(plain_cfg(), &c2, &c2));
    assert_eq!(st.pipe.f, f_before);
    assert_eq!(st.pipe.d, d_before);
    assert!(matches!(st.pipe.e.occ, Occupant::Bubble));
}

#[test]
fn stalled_cycle_compares_cleanly() {
    let golden = stalled_trace();
    let test = golden.clone();
    let r = compare_sim(&golden, &test, plain_cfg());
    assert!(passed(&r));
    assert_eq!(r.cycles.len(), 3);
}

/// A golden trace that takes a branch: the branch reaches execute at cycle
/// 2 with the branch-taken flag set, so cycle 3's fetch and decode are
/// squashed.
fn branch_trace() -> Vec<Cycle> {
    let mut v = nop_trace(5);
    v[0].f.instr = BEQ;
    // cycle 1: the branch sits in decode
    v[1].d = DecodeRec {
        pc: npc(0),
        opcode: 0x63,
        rd: 0,
        rs1: 1,
        rs2: 2,
        funct3: 0,
        funct7: 0,
        imm: 8,
        shamt: 0,
    };
    v[1].r = RegRec { addr_rs1: 1, addr_rs2: 2, data_rs1: 7, data_rs2: 7 };
    // cycle 2: the branch sits in execute and is taken
    v[2].e.branch_taken = true;
    // cycle 3: fetch resumes at the branch target; decode was squashed, so
    // its line is unchecked
    v[3].f.pc = npc(0) + 8;
    v[3].d.pc = 0;
    // cycle 4: decode holds the instruction fetched at cycle 3; execute was
    // squashed, memory holds the branch
    v[4].d.pc = npc(0) + 8;
    v[4].e.pc = 0;
    // cycle 4: memory holds the squash bubble and writeback the branch
    v[4].m.pc = 0;
    v
}

#[test]
fn taken_branch_squashes_next_fetch_and_decode() {
    let golden = branch_trace();
    let mut test = golden.clone();
    // the squashed cycle's decode and register-read lines are don't-cares
    test[3].d.opcode = 0x55;
    test[3].d.rd = 9;
    test[3].r.data_rs1 = 0xbad;
    let r = compare_sim(&golden, &test, plain_cfg());
    assert!(passed(&r), "squashed decode must not be compared: {:?}", r);
    // the branch-taken flag itself is compared while the branch executes
    let mut test2 = golden.clone();
    test2[2].e.branch_taken = false;
    let r2 = compare_sim(&golden, &test2, plain_cfg());
    assert_eq!(total_errors(&r2), 1);
    assert_eq!(r2.cycles[2].fields, vec![Field::EBranchTaken]);
}

#[test]
fn branch_squash_model_state() {
    let golden = branch_trace();
    let cfg = plain_cfg();
    let mut st = EngineState::new();
    assert!(!st.step(cfg, &golden[0], &golden[0]));
    assert!(!st.step(cfg, &golden[1], &golden[1]));
    assert!(!st.step(cfg, &golden[2], &golden[2]));
    assert!(st.squash_pending);
    assert!(!st.step(cfg, &golden[3], &golden[3]));
    // after the squash and the cycle's own advance, decode holds the bubble
    // that was squashed into fetch
    assert!(matches!(st.pipe.d.occ, Occupant::Bubble));
    assert!(!st.squash_pending);
}

/// A golden trace with a fence in decode at cycle 1.
fn fence_trace() -> Vec<Cycle> {
    let mut v = nop_trace(4);
    v[0].f.instr = FENCE;
    v[1].d = DecodeRec {
        pc: npc(0),
        opcode: 0x0f,
        rd: 0,
        rs1: 0,
        rs2: 0,
        funct3: 0,
        funct7: 0,
        imm: 0x0ff,
        shamt: 0,
    };
    // cycle 2: the fence executes; cycle 3: it is in memory
    v
}

#[test]
fn fence_skips_opcode_but_not_pc() {
    let golden = fence_trace();
    let mut test = golden.clone();
    // a differing opcode on the fence's decode line is a don't-care
    test[1].d.opcode = 0x13;
    let r = compare_sim(&golden, &test, plain_cfg());
    assert!(passed(&r), "fence opcode must be skipped: {:?}", r);

    // a differing program counter on the same line is still an error
    let mut test2 = golden.clone();
    test2[1].d.pc = 0x9999;
    let r2 = compare_sim(&golden, &test2, plain_cfg());
    assert_eq!(total_errors(&r2), 1);
    assert_eq!(r2.cycles[1].fields, vec![Field::DPc]);
}

#[test]
fn bubble_in_decode_skips_decode_and_regread_checks() {
    let golden = nop_trace(4);
    let mut test = golden.clone();
    // cycle 0's decode slot is a bubble: its decode and register-read lines
    // are never compared
    test[0].d.opcode = 0x7f;
    test[0].d.imm = 0xffff;
    test[0].r.data_rs1 = 0xbad;
    test[0].r.addr_rs1 = 0x1f;
    let r = compare_sim(&golden, &test, plain_cfg());
    assert!(passed(&r));
}

#[test]
fn comparison_is_deterministic() {
    let golden = branch_trace();
    let mut test = golden.clone();
    test[2].e.alu_result = 5;
    test[4].f.instr = 0x93;
    let r1 = compare_sim(&golden, &test, plain_cfg());
    let r2 = compare_sim(&golden, &test, plain_cfg());
    assert_eq!(r1, r2);
    assert_eq!(total_errors(&r1), total_errors(&r2));
}

/// In the delayed-fetch variant the instruction word for a fetched program
/// counter appears on the next cycle's fetch line, so a trace of identical
/// no-op words behaves as before, but only the cycles with a lookahead
/// window are compared.
#[test]
fn delayed_fetch_compares_with_lookahead() {
    let golden = nop_trace(8);
    let test = golden.clone();
    let r = compare_sim(&golden, &test, delayed_cfg());
    assert!(passed(&r));
    assert_eq!(r.cycles.len(), 7);
}

#[test]
fn delayed_fetch_reads_register_data_from_next_cycle() {
    let golden = nop_trace(8);
    let mut test = golden.clone();
    // cycle 3's register-read data differs, which the delayed-fetch variant
    // attributes to the cycle before
    test[3].r.data_rs1 = 0xbad;
    let r = compare_sim(&golden, &test, delayed_cfg());
    assert_eq!(total_errors(&r), 1);
    assert_eq!(r.cycles[2].fields, vec![Field::RRs1Data]);
    // the plain variant attributes it to cycle 3 itself
    let r2 = compare_sim(&golden, &test, plain_cfg());
    assert_eq!(total_errors(&r2), 1);
    assert_eq!(r2.cycles[3].fields, vec![Field::RRs1Data]);
}

#[test]
fn board_mode_checks_writeback_only() {
    let golden = nop_trace(8);
    let mut test = golden.clone();
    // internal-stage differences are ignored on the board
    test[2].d.opcode = 0x55;
    test[3].e.alu_result = 9;
    test[4].m.addr = 1;
    test[2].f.instr = 0x93;
    let r = compare_board(&golden, &test);
    assert!(passed(&r), "board mode must ignore internal stages: {:?}", r);

    let mut test2 = golden.clone();
    test2[5].w.data_rd = 3;
    let r2 = compare_board(&golden, &test2);
    assert_eq!(total_errors(&r2), 1);
    assert_eq!(r2.cycles[5].fields, vec![Field::WRdData]);
}

#[test]
fn golden_classifier_disagreement_is_fatal() {
    let mut golden = nop_trace(4);
    // the no-op in decode at cycle 1 defines destination register 0; a
    // golden trace claiming otherwise is broken tooling, not a candidate bug
    golden[1].d.rd = 5;
    let test = golden.clone();
    let r = compare_sim(&golden, &test, plain_cfg());
    let f = r.fatal.expect("must abort");
    assert_eq!(f.cycle, 1);
    assert_eq!(f.kind, FatalKind::GoldenField { field: Field::DRd });
    // only the cycle before the fatal one was compared
    assert_eq!(r.cycles.len(), 1);
    assert!(!passed(&r));
}

#[test]
fn golden_pc_drift_is_fatal() {
    let mut golden = nop_trace(4);
    golden[2].e.pc = 0x4444;
    let test = golden.clone();
    let r = compare_sim(&golden, &test, plain_cfg());
    let f = r.fatal.expect("must abort");
    assert_eq!(f.cycle, 2);
    assert_eq!(f.kind, FatalKind::StagePc { stage: Stage::Execute });
}

/// A golden trace that fetches an unconditional jump at cycle 0; the
/// golden execute line never sets the branch-taken flag.
fn jal_trace() -> Vec<Cycle> {
    let mut v = nop_trace(6);
    v[0].f.instr = JAL;
    v[1].d = DecodeRec {
        pc: npc(0),
        opcode: 0x6f,
        rd: 0,
        rs1: 0,
        rs2: 0,
        funct3: 0,
        funct7: 0,
        imm: 8,
        shamt: 0,
    };
    v
}

#[test]
fn jump_squash_is_a_configuration_choice() {
    let golden = jal_trace();
    let mut test = golden.clone();
    // the cycle after the jump executes: decode holds a don't-care only if
    // the jump squashed it
    if let Some(c) = test.get_mut(3) {
        c.d.opcode = 0x55;
    }
    let always = EngineConfig {
        delayed_fetch: false,
        writeback_only: false,
        jump_always_squashes: true,
    };
    let by_flag = EngineConfig {
        delayed_fetch: false,
        writeback_only: false,
        jump_always_squashes: false,
    };
    let r1 = compare_sim(&golden, &test, always);
    assert!(passed(&r1), "an always-squashing jump empties decode: {:?}", r1);
    // with squash driven by the branch-taken flag, which stayed clear, the
    // decode slot is occupied and the difference counts
    let r2 = compare_sim(&golden, &test, by_flag);
    assert_eq!(total_errors(&r2), 1);
    assert_eq!(r2.cycles[3].fields, vec![Field::DOpcode]);
}

#[test]
fn fence_in_writeback_skips_write_enable_but_not_pc() {
    let mut golden = fence_trace();
    golden.push(nop_cycle(4));
    let mut test = golden.clone();
    // cycle 4: the fence retires; its write-enable flag is a don't-care
    test[4].w.we = false;
    let r = compare_sim(&golden, &test, plain_cfg());
    assert!(passed(&r), "fence write-enable must be skipped: {:?}", r);

    let mut test2 = golden.clone();
    test2[4].w.pc = 0x7777;
    let r2 = compare_sim(&golden, &test2, plain_cfg());
    assert_eq!(total_errors(&r2), 1);
    assert_eq!(r2.cycles[4].fields, vec![Field::WPc]);
}

/// A golden trace for the delayed-fetch variant with a one-cycle stall:
/// the instruction fetched while the next cycle stalls has no knowable
/// word until the stall ends.
fn delayed_stall_trace() -> Vec<Cycle> {
    let mut v = nop_trace(6);
    // cycle 3 stalls: decode still shows the cycle-0 instruction's
    // program counter entering execute, and fetch is held in place
    v[3].f.pc = npc(2);
    v[3].d.pc = npc(1);
    v[3].e.pc = npc(1);
    // cycle 4 resumes: decode accepts the held fetch, execute the held
    // decode
    v[4].f.pc = npc(3);
    v[4].d.pc = npc(2);
    v[4].e.pc = npc(1);
    v
}

#[test]
fn delayed_fetch_stall_defers_the_instruction_word() {
    let golden = delayed_stall_trace();
    let cfg = delayed_cfg();
    let mut st = EngineState::new();
    assert!(!st.step(cfg, &golden[0], &golden[1]));
    assert!(!st.step(cfg, &golden[1], &golden[2]));
    // cycle 2 sees the coming stall: the fetched word is not yet knowable
    assert!(!st.step(cfg, &golden[2], &golden[3]));
    assert_eq!(st.pipe.f.pc, npc(2));
    assert!(matches!(st.pipe.f.occ, Occupant::WordPending));
    // cycle 3 stalls; the stall ends next cycle, so the word is filled in
    // from the following fetch line, while fetch and decode hold still
    let d_before = st.pipe.d;
    assert!(!st.step(cfg, &golden[3], &golden[4]));
    assert_eq!(st.pipe.f.pc, npc(2));
    assert_eq!(st.pipe.f.occ, Occupant::Instr(NOP));
    assert_eq!(st.pipe.d, d_before);
    assert!(matches!(st.pipe.e.occ, Occupant::Bubble));
    // cycle 4 resumes normally
    assert!(!st.step(cfg, &golden[4], &golden[5]));
    assert_eq!(st.pipe.d.pc, npc(2));
    assert_eq!(st.pipe.e.pc, npc(1));
}

#[test]
fn delayed_fetch_stall_compares_cleanly() {
    let golden = delayed_stall_trace();
    let test = golden.clone();
    let r = compare_sim(&golden, &test, delayed_cfg());
    assert!(passed(&r), "{:?}", r);
    assert_eq!(r.cycles.len(), 5);
}

#[test]
fn empty_traces_pass() {
    let golden: Vec<Cycle> = Vec::new();
    let test: Vec<Cycle> = Vec::new();
    let r = compare_sim(&golden, &test, plain_cfg());
    assert!(passed(&r));
    assert_eq!(r.cycles.len(), 0);
    let rb = compare_board(&golden, &test);
    assert!(passed(&rb));
}

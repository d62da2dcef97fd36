use pddiff::compare::{compare_simple, passed, total_errors, FatalKind, Field, Stage};
use pddiff::record::{DecodeRec, ExecRec, FetchRec, MemRec, ParsedLine, RegRec, WbRec};

const ADDI: u32 = 0x0050_0093; // addi x1, x0, 5
const SW: u32 = 0x0011_2223; // sw x1, 4(x2)

/// One cycle of six lines for a design without pipelining: every line of
/// the cycle describes the same instruction.
fn addi_cycle(pc: u32) -> Vec<ParsedLine> {
    vec![
        ParsedLine::F(FetchRec { pc, instr: ADDI }),
        ParsedLine::D(DecodeRec {
            pc,
            opcode: 0x13,
            rd: 1,
            rs1: 0,
            rs2: 0,
            funct3: 0,
            funct7: 0,
            imm: 5,
            shamt: 0,
        }),
        ParsedLine::R(RegRec { addr_rs1: 0, addr_rs2: 0, data_rs1: 0, data_rs2: 0 }),
        ParsedLine::E(ExecRec { pc, alu_result: 5, branch_taken: false }),
        ParsedLine::M(MemRec { pc, addr: 0, read_not_write: true, access_size: 0, memory_wdata: 0 }),
        ParsedLine::W(WbRec { pc, we: true, addr_rd: 1, data_rd: 5 }),
    ]
}

fn sw_cycle(pc: u32) -> Vec<ParsedLine> {
    vec![
        ParsedLine::F(FetchRec { pc, instr: SW }),
        ParsedLine::D(DecodeRec {
            pc,
            opcode: 0x23,
            rd: 0,
            rs1: 2,
            rs2: 1,
            funct3: 2,
            funct7: 0,
            imm: 4,
            shamt: 0,
        }),
        ParsedLine::R(RegRec { addr_rs1: 2, addr_rs2: 1, data_rs1: 0x2000, data_rs2: 5 }),
        ParsedLine::E(ExecRec { pc, alu_result: 0x2004, branch_taken: false }),
        ParsedLine::M(MemRec {
            pc,
            addr: 0x2004,
            read_not_write: false,
            access_size: 4,
            memory_wdata: 5,
        }),
        // a store writes no register
        ParsedLine::W(WbRec { pc, we: false, addr_rd: 0, data_rd: 0 }),
    ]
}

fn two_cycle_trace() -> Vec<ParsedLine> {
    let mut v = addi_cycle(0x100);
    v.extend(sw_cycle(0x104));
    v
}

#[test]
fn simple_identical_traces_pass() {
    let golden = two_cycle_trace();
    let test = golden.clone();
    let r = compare_simple(&golden, &test);
    assert!(passed(&r), "{:?}", r);
    assert_eq!(r.cycles.len(), 12);
}

#[test]
fn simple_opcode_is_always_compared() {
    // unlike the pipelined engine, the per-line comparison has no fence
    // special case on the opcode: any opcode difference counts
    let golden = two_cycle_trace();
    let mut test = two_cycle_trace();
    if let ParsedLine::D(ref mut d) = test[1] {
        d.opcode = 0x33;
    } else {
        panic!();
    }
    let r = compare_simple(&golden, &test);
    assert_eq!(total_errors(&r), 1);
    assert_eq!(r.cycles[1].fields, vec![Field::DOpcode]);
}

#[test]
fn simple_store_write_data_compared() {
    let golden = two_cycle_trace();
    let mut test = two_cycle_trace();
    if let ParsedLine::M(ref mut m) = test[10] {
        m.memory_wdata = 9;
    } else {
        panic!();
    }
    let r = compare_simple(&golden, &test);
    assert_eq!(total_errors(&r), 1);
    assert_eq!(r.cycles[10].fields, vec![Field::MWriteData]);
}

#[test]
fn simple_undefined_fields_are_skipped() {
    // the store defines no destination register: its writeback data is a
    // don't-care, though write-enable is still compared
    let golden = two_cycle_trace();
    let mut test = two_cycle_trace();
    if let ParsedLine::W(ref mut w) = test[11] {
        w.addr_rd = 9;
        w.data_rd = 9;
    } else {
        panic!();
    }
    let r = compare_simple(&golden, &test);
    assert!(passed(&r), "{:?}", r);
}

#[test]
fn simple_mismatched_line_tags_are_fatal() {
    let golden = two_cycle_trace();
    let mut test = two_cycle_trace();
    test.swap(1, 2);
    let r = compare_simple(&golden, &test);
    let f = r.fatal.expect("must abort");
    assert_eq!(f.cycle, 1);
    assert_eq!(f.kind, FatalKind::MismatchedLine);
    assert_eq!(r.cycles.len(), 1);
}

#[test]
fn simple_line_before_any_fetch_is_fatal() {
    let golden = vec![ParsedLine::E(ExecRec { pc: 0, alu_result: 0, branch_taken: false })];
    let test = golden.clone();
    let r = compare_simple(&golden, &test);
    let f = r.fatal.expect("must abort");
    assert_eq!(f.cycle, 0);
    assert_eq!(f.kind, FatalKind::NoPriorFetch);
}

#[test]
fn simple_golden_pc_drift_in_execute_is_fatal() {
    let mut golden = addi_cycle(0x100);
    if let ParsedLine::E(ref mut e) = golden[3] {
        e.pc = 0x200;
    } else {
        panic!();
    }
    let test = golden.clone();
    let r = compare_simple(&golden, &test);
    let f = r.fatal.expect("must abort");
    assert_eq!(f.cycle, 3);
    assert_eq!(f.kind, FatalKind::StagePc { stage: Stage::Execute });
}

#[test]
fn simple_golden_pc_drift_in_writeback_is_an_error_not_fatal() {
    let mut golden = addi_cycle(0x100);
    if let ParsedLine::W(ref mut w) = golden[5] {
        w.pc = 0x200;
    } else {
        panic!();
    }
    let test = golden.clone();
    let r = compare_simple(&golden, &test);
    assert!(r.fatal.is_none());
    // the drift from the last fetch is reported even though golden and
    // candidate agree with each other
    assert_eq!(r.cycles[5].fields, vec![Field::WPcDrift]);
    assert_eq!(total_errors(&r), 1);
}

#[test]
fn simple_classifier_disagreement_is_fatal() {
    let mut golden = addi_cycle(0x100);
    if let ParsedLine::D(ref mut d) = golden[1] {
        d.rd = 7;
    } else {
        panic!();
    }
    let test = golden.clone();
    let r = compare_simple(&golden, &test);
    let f = r.fatal.expect("must abort");
    assert_eq!(f.cycle, 1);
    assert_eq!(f.kind, FatalKind::GoldenField { field: Field::DRd });
}

#[test]
fn simple_runs_are_deterministic() {
    let golden = two_cycle_trace();
    let mut test = two_cycle_trace();
    if let ParsedLine::F(ref mut f) = test[6] {
        f.instr = 0x13;
    } else {
        panic!();
    }
    let r1 = compare_simple(&golden, &test);
    let r2 = compare_simple(&golden, &test);
    assert_eq!(r1, r2);
}

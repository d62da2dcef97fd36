use pddiff::parse::{parse_bit, parse_hex, parse_line, parse_trace, tokenize};
use pddiff::record::{cycles_of, ParsedLine, TraceError};

#[test]
fn tokenize_splits_on_whitespace() {
    let toks = tokenize(b"  [F]\t00000100  00000013 ");
    assert_eq!(toks.len(), 3);
    assert_eq!(toks[0], b"[F]".to_vec());
    assert_eq!(toks[1], b"00000100".to_vec());
    assert_eq!(toks[2], b"00000013".to_vec());
}

#[test]
fn tokenize_empty_line() {
    assert_eq!(tokenize(b"").len(), 0);
    assert_eq!(tokenize(b"   \t ").len(), 0);
}

#[test]
fn parse_hex_values() {
    assert_eq!(parse_hex(&b"0".to_vec(), u32::MAX), Some(0));
    assert_eq!(parse_hex(&b"ff".to_vec(), u32::MAX), Some(255));
    assert_eq!(parse_hex(&b"FF".to_vec(), u32::MAX), Some(255));
    assert_eq!(parse_hex(&b"deadBEEF".to_vec(), u32::MAX), Some(0xdead_beef));
    assert_eq!(parse_hex(&b"000000ff".to_vec(), 0xff), Some(255));
    assert_eq!(parse_hex(&b"ffffffff".to_vec(), u32::MAX), Some(u32::MAX));
}

#[test]
fn parse_hex_rejects() {
    assert_eq!(parse_hex(&b"".to_vec(), u32::MAX), None);
    assert_eq!(parse_hex(&b"xyz".to_vec(), u32::MAX), None);
    assert_eq!(parse_hex(&b"1g".to_vec(), u32::MAX), None);
    // too wide for the field
    assert_eq!(parse_hex(&b"100".to_vec(), 0xff), None);
    // too wide for any 32-bit field
    assert_eq!(parse_hex(&b"100000000".to_vec(), u32::MAX), None);
    // a sign is not a digit
    assert_eq!(parse_hex(&b"+1".to_vec(), u32::MAX), None);
}

#[test]
fn parse_bit_is_strict() {
    assert_eq!(parse_bit(&b"1".to_vec()), Some(true));
    assert_eq!(parse_bit(&b"0".to_vec()), Some(false));
    assert_eq!(parse_bit(&b"2".to_vec()), None);
    assert_eq!(parse_bit(&b"01".to_vec()), None);
    assert_eq!(parse_bit(&b"".to_vec()), None);
}

#[test]
fn parse_fetch_line() {
    let l = parse_line(b"[F] 00000100 00000013").unwrap();
    match l {
        ParsedLine::F(f) => {
            assert_eq!(f.pc, 0x100);
            assert_eq!(f.instr, 0x13);
        },
        _ => panic!("wrong variant"),
    }
}

#[test]
fn parse_decode_line() {
    let l = parse_line(b"[D] 00000100 13 01 02 03 0 7f 00000005 1f").unwrap();
    match l {
        ParsedLine::D(d) => {
            assert_eq!(d.pc, 0x100);
            assert_eq!(d.opcode, 0x13);
            assert_eq!(d.rd, 1);
            assert_eq!(d.rs1, 2);
            assert_eq!(d.rs2, 3);
            assert_eq!(d.funct3, 0);
            assert_eq!(d.funct7, 0x7f);
            assert_eq!(d.imm, 5);
            assert_eq!(d.shamt, 0x1f);
        },
        _ => panic!("wrong variant"),
    }
}

#[test]
fn parse_regread_line() {
    let l = parse_line(b"[R] 01 02 deadbeef cafebabe").unwrap();
    match l {
        ParsedLine::R(r) => {
            assert_eq!(r.addr_rs1, 1);
            assert_eq!(r.addr_rs2, 2);
            assert_eq!(r.data_rs1, 0xdead_beef);
            assert_eq!(r.data_rs2, 0xcafe_babe);
        },
        _ => panic!("wrong variant"),
    }
}

#[test]
fn parse_execute_line() {
    let l = parse_line(b"[E] 00000100 00000008 1").unwrap();
    match l {
        ParsedLine::E(e) => {
            assert_eq!(e.pc, 0x100);
            assert_eq!(e.alu_result, 8);
            assert!(e.branch_taken);
        },
        _ => panic!("wrong variant"),
    }
}

#[test]
fn parse_memory_line() {
    let l = parse_line(b"[M] 00000100 00002000 0 4 00000055").unwrap();
    match l {
        ParsedLine::M(m) => {
            assert_eq!(m.pc, 0x100);
            assert_eq!(m.addr, 0x2000);
            assert!(!m.read_not_write);
            assert_eq!(m.access_size, 4);
            assert_eq!(m.memory_wdata, 0x55);
        },
        _ => panic!("wrong variant"),
    }
}

#[test]
fn parse_writeback_line() {
    let l = parse_line(b"[W] 00000100 1 01 00000005").unwrap();
    match l {
        ParsedLine::W(w) => {
            assert_eq!(w.pc, 0x100);
            assert!(w.we);
            assert_eq!(w.addr_rd, 1);
            assert_eq!(w.data_rd, 5);
        },
        _ => panic!("wrong variant"),
    }
}

#[test]
fn parse_line_rejects_bad_input() {
    assert_eq!(parse_line(b""), None);
    assert_eq!(parse_line(b"[X] 0 0"), None);
    assert_eq!(parse_line(b"[F] 0"), None);
    assert_eq!(parse_line(b"[F] zz 00"), None);
    assert_eq!(parse_line(b"[E] 0 0 2"), None);
    // a decode field too wide for one byte
    assert_eq!(parse_line(b"[D] 0 100 0 0 0 0 0 0 0"), None);
}

#[test]
fn parse_line_ignores_trailing_tokens() {
    let l = parse_line(b"[F] 00000100 00000013 extra tokens").unwrap();
    match l {
        ParsedLine::F(f) => assert_eq!(f.pc, 0x100),
        _ => panic!("wrong variant"),
    }
}

#[test]
fn parse_trace_reports_first_bad_line() {
    let lines: Vec<Vec<u8>> = vec![
        b"[F] 00000100 00000013".to_vec(),
        b"[D] not a line".to_vec(),
        b"[R] 00 00 0 0".to_vec(),
    ];
    assert_eq!(parse_trace(&lines), Err(TraceError::BadLine { line: 1 }));
}

#[test]
fn parse_trace_ok() {
    let lines: Vec<Vec<u8>> = vec![b"[F] 00000100 00000013".to_vec(), b"[W] 0 0 0 0".to_vec()];
    let ls = parse_trace(&lines).unwrap();
    assert_eq!(ls.len(), 2);
    assert!(matches!(ls[0], ParsedLine::F(_)));
    assert!(matches!(ls[1], ParsedLine::W(_)));
}

fn one_cycle_lines() -> Vec<Vec<u8>> {
    vec![
        b"[F] 00000100 00000013".to_vec(),
        b"[D] 00000000 13 00 00 00 0 00 00000000 00".to_vec(),
        b"[R] 00 00 00000000 00000000".to_vec(),
        b"[E] 00000000 00000000 0".to_vec(),
        b"[M] 00000000 00000000 1 0 00000000".to_vec(),
        b"[W] 00000000 0 00 00000000".to_vec(),
    ]
}

#[test]
fn cycles_of_groups_six_lines() {
    let ls = parse_trace(&one_cycle_lines()).unwrap();
    let cs = cycles_of(&ls).unwrap();
    assert_eq!(cs.len(), 1);
    assert_eq!(cs[0].f.pc, 0x100);
    assert_eq!(cs[0].f.instr, 0x13);
}

#[test]
fn cycles_of_rejects_out_of_order() {
    let mut lines = one_cycle_lines();
    lines.swap(1, 2);
    let ls = parse_trace(&lines).unwrap();
    assert_eq!(cycles_of(&ls), Err(TraceError::OutOfOrder { line: 1 }));
}

#[test]
fn cycles_of_rejects_truncated() {
    let mut lines = one_cycle_lines();
    lines.push(b"[F] 00000104 00000013".to_vec());
    let ls = parse_trace(&lines).unwrap();
    assert_eq!(cycles_of(&ls), Err(TraceError::Truncated { lines: 6 }));
}

use pddiff::parse::parse_line;
use pddiff::record::{DecodeRec, ExecRec, FetchRec, MemRec, ParsedLine, RegRec, WbRec};
use pddiff::render::{hex_field, render_line};

#[test]
fn hex_field_pads_to_width() {
    assert_eq!(hex_field(0x100, 8), b"00000100".to_vec());
    assert_eq!(hex_field(0, 2), b"00".to_vec());
    assert_eq!(hex_field(0xdead_beef, 8), b"deadbeef".to_vec());
    assert_eq!(hex_field(2, 1), b"2".to_vec());
    // a value wider than the customary width keeps all its digits
    assert_eq!(hex_field(0xff, 1), b"ff".to_vec());
}

#[test]
fn render_fetch_line() {
    let l = ParsedLine::F(FetchRec { pc: 0x100, instr: 0x13 });
    assert_eq!(render_line(&l), b"[F] 00000100 00000013".to_vec());
}

#[test]
fn render_decode_line() {
    let l = ParsedLine::D(DecodeRec {
        pc: 0x100,
        opcode: 0x13,
        rd: 1,
        rs1: 0,
        rs2: 0,
        funct3: 2,
        funct7: 0x20,
        imm: 5,
        shamt: 1,
    });
    assert_eq!(render_line(&l), b"[D] 00000100 13 01 00 00 2 20 00000005 01".to_vec());
}

#[test]
fn render_round_trips_every_shape() {
    let lines = vec![
        ParsedLine::F(FetchRec { pc: 0x100, instr: 0x13 }),
        ParsedLine::D(DecodeRec {
            pc: 0xffff_fffc,
            opcode: 0x63,
            rd: 0x1f,
            rs1: 7,
            rs2: 9,
            funct3: 5,
            funct7: 0x7f,
            imm: 0xffff_fff8,
            shamt: 0x1f,
        }),
        ParsedLine::R(RegRec { addr_rs1: 1, addr_rs2: 2, data_rs1: 0xdead_beef, data_rs2: 0 }),
        ParsedLine::E(ExecRec { pc: 0, alu_result: 0xcafe_babe, branch_taken: true }),
        ParsedLine::M(MemRec {
            pc: 0x104,
            addr: 0x2000,
            read_not_write: false,
            access_size: 4,
            memory_wdata: 0x55,
        }),
        ParsedLine::W(WbRec { pc: 0x108, we: true, addr_rd: 0x1f, data_rd: 0xffff_ffff }),
    ];
    for l in lines {
        let text = render_line(&l);
        assert_eq!(parse_line(&text), Some(l), "{:?}", String::from_utf8(text.clone()));
    }
}

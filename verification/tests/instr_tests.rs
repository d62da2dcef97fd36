use pddiff::instr::{
    get_funct3, get_funct7, get_imm, get_rd, get_rs1, get_rs2, get_shamt, instr_format, is_btype,
    is_fence, is_memory, is_shift_imm, is_stype, is_system, is_uncond_jump, InstrFormat,
};

const NOP: u32 = 0x0000_0013; // addi x0, x0, 0
const ADDI: u32 = 0x0050_0093; // addi x1, x0, 5
const ADDI_NEG: u32 = 0xfff0_0093; // addi x1, x0, -1
const ADD: u32 = 0x0020_81b3; // add x3, x1, x2
const BEQ: u32 = 0x0020_8463; // beq x1, x2, +8
const JAL: u32 = 0x0080_006f; // jal x0, +8
const JALR: u32 = 0x0000_8067; // jalr x0, 0(x1)
const LUI: u32 = 0x1234_50b7; // lui x1, 0x12345
const LW: u32 = 0x0001_2083; // lw x1, 0(x2)
const SW: u32 = 0x0011_2223; // sw x1, 4(x2)
const FENCE: u32 = 0x0ff0_000f; // fence iorw, iorw
const ECALL: u32 = 0x0000_0073;
const SRAI: u32 = 0x4010_d093; // srai x1, x1, 1

#[test]
fn formats() {
    assert_eq!(instr_format(ADD), Some(InstrFormat::R));
    assert_eq!(instr_format(ADDI), Some(InstrFormat::I));
    assert_eq!(instr_format(SW), Some(InstrFormat::S));
    assert_eq!(instr_format(BEQ), Some(InstrFormat::B));
    assert_eq!(instr_format(LUI), Some(InstrFormat::U));
    assert_eq!(instr_format(JAL), Some(InstrFormat::J));
    assert_eq!(instr_format(JALR), Some(InstrFormat::I));
    assert_eq!(instr_format(FENCE), Some(InstrFormat::I));
    assert_eq!(instr_format(ECALL), Some(InstrFormat::I));
    assert_eq!(instr_format(0), None);
    assert_eq!(instr_format(0xffff_ffff), None);
}

#[test]
fn class_predicates() {
    assert!(is_fence(FENCE));
    assert!(!is_fence(ADDI));
    assert!(is_system(ECALL));
    assert!(!is_system(FENCE));
    assert!(is_btype(BEQ));
    assert!(!is_btype(JAL));
    assert!(is_stype(SW));
    assert!(!is_stype(LW));
    assert!(is_memory(LW));
    assert!(is_memory(SW));
    assert!(!is_memory(ADD));
    assert!(is_uncond_jump(JAL));
    assert!(is_uncond_jump(JALR));
    assert!(!is_uncond_jump(BEQ));
    assert!(is_shift_imm(SRAI));
    assert!(!is_shift_imm(ADDI));
}

#[test]
fn register_fields() {
    assert_eq!(get_rd(ADDI), Some(1));
    assert_eq!(get_rd(ADD), Some(3));
    assert_eq!(get_rd(BEQ), None);
    assert_eq!(get_rd(SW), None);
    assert_eq!(get_rd(LUI), Some(1));
    assert_eq!(get_rd(JAL), Some(0));

    assert_eq!(get_rs1(ADD), Some(1));
    assert_eq!(get_rs1(BEQ), Some(1));
    assert_eq!(get_rs1(SW), Some(2));
    assert_eq!(get_rs1(LUI), None);
    assert_eq!(get_rs1(JAL), None);

    assert_eq!(get_rs2(ADD), Some(2));
    assert_eq!(get_rs2(BEQ), Some(2));
    assert_eq!(get_rs2(SW), Some(1));
    assert_eq!(get_rs2(ADDI), None);
}

#[test]
fn function_codes() {
    assert_eq!(get_funct3(ADD), Some(0));
    assert_eq!(get_funct3(LW), Some(2));
    assert_eq!(get_funct3(LUI), None);
    assert_eq!(get_funct3(JAL), None);

    assert_eq!(get_funct7(ADD), Some(0));
    assert_eq!(get_funct7(SRAI), Some(0x20));
    assert_eq!(get_funct7(ADDI), None);
    assert_eq!(get_funct7(SW), None);
}

#[test]
fn immediates() {
    assert_eq!(get_imm(ADDI), Some(5));
    assert_eq!(get_imm(ADDI_NEG), Some(0xffff_ffff));
    assert_eq!(get_imm(SW), Some(4));
    assert_eq!(get_imm(BEQ), Some(8));
    assert_eq!(get_imm(JAL), Some(8));
    assert_eq!(get_imm(LUI), Some(0x1234_5000));
    assert_eq!(get_imm(ADD), None);
    // a shift-by-immediate reports a shift amount, not an immediate
    assert_eq!(get_imm(SRAI), None);
    assert_eq!(get_shamt(SRAI), Some(1));
    assert_eq!(get_shamt(ADDI), None);
}

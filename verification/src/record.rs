//! Trace records: one stage-event line, and one full cycle of six lines.
//!
//! A trace is a sequence of lines in the strict repeating order
//! fetch, decode, register-read, execute, memory, writeback; six consecutive
//! lines describe one clock cycle.  Any other ordering is a fatal
//! input-format violation, reported with the index of the offending line.

use vstd::prelude::*;

verus! {

/// Fetch line: `[F] <pc> <instr_word>`.
#[derive(Clone, Copy, PartialEq, Eq, Structural, Debug)]
pub struct FetchRec {
    pub pc: u32,
    pub instr: u32,
}

/// Decode line: `[D] <pc> <opcode> <rd> <rs1> <rs2> <funct3> <funct7> <imm> <shamt>`.
#[derive(Clone, Copy, PartialEq, Eq, Structural, Debug)]
pub struct DecodeRec {
    pub pc: u32,
    pub opcode: u8,
    pub rd: u8,
    pub rs1: u8,
    pub rs2: u8,
    pub funct3: u8,
    pub funct7: u8,
    pub imm: u32,
    pub shamt: u8,
}

/// Register-read line: `[R] <rs1_addr> <rs2_addr> <rs1_data> <rs2_data>`.
#[derive(Clone, Copy, PartialEq, Eq, Structural, Debug)]
pub struct RegRec {
    pub addr_rs1: u8,
    pub addr_rs2: u8,
    pub data_rs1: u32,
    pub data_rs2: u32,
}

/// Execute line: `[E] <pc> <alu_result> <branch_taken>`.
#[derive(Clone, Copy, PartialEq, Eq, Structural, Debug)]
pub struct ExecRec {
    pub pc: u32,
    pub alu_result: u32,
    pub branch_taken: bool,
}

/// Memory line: `[M] <pc> <addr> <read_not_write> <access_size> <write_data>`.
#[derive(Clone, Copy, PartialEq, Eq, Structural, Debug)]
pub struct MemRec {
    pub pc: u32,
    pub addr: u32,
    pub read_not_write: bool,
    pub access_size: u8,
    pub memory_wdata: u32,
}

/// Writeback line: `[W] <pc> <write_enable> <rd_addr> <rd_data>`.
#[derive(Clone, Copy, PartialEq, Eq, Structural, Debug)]
pub struct WbRec {
    pub pc: u32,
    pub we: bool,
    pub addr_rd: u8,
    pub data_rd: u32,
}

/// One parsed stage-event line.
#[derive(Clone, Copy, PartialEq, Eq, Structural, Debug)]
pub enum ParsedLine {
    F(FetchRec),
    D(DecodeRec),
    R(RegRec),
    E(ExecRec),
    M(MemRec),
    W(WbRec),
}

/// The six stage-event lines of one clock cycle, in stage order.
#[derive(Clone, Copy, PartialEq, Eq, Structural, Debug)]
pub struct Cycle {
    pub f: FetchRec,
    pub d: DecodeRec,
    pub r: RegRec,
    pub e: ExecRec,
    pub m: MemRec,
    pub w: WbRec,
}

/// A fatal violation of the trace's line structure.
#[derive(Clone, Copy, PartialEq, Eq, Structural, Debug)]
pub enum TraceError {
    /// The line could not be tokenized into a known stage-event shape.
    BadLine { line: usize },
    /// The line's stage tag breaks the strict repeating stage order.
    OutOfOrder { line: usize },
    /// The trace ends in the middle of a cycle, after this many whole lines.
    Truncated { lines: usize },
}

/// Grouping of a line sequence into cycles, from line `i` on.
pub open spec fn spec_cycles_from(ls: Seq<ParsedLine>, i: int) -> Result<Seq<Cycle>, TraceError>
    decreases ls.len() - i,
{
    if i >= ls.len() {
        Ok(Seq::empty())
    } else if ls.len() - i < 6 {
        Err(TraceError::Truncated { lines: i as usize })
    } else if !(ls[i] is F) {
        Err(TraceError::OutOfOrder { line: i as usize })
    } else if !(ls[i + 1] is D) {
        Err(TraceError::OutOfOrder { line: (i + 1) as usize })
    } else if !(ls[i + 2] is R) {
        Err(TraceError::OutOfOrder { line: (i + 2) as usize })
    } else if !(ls[i + 3] is E) {
        Err(TraceError::OutOfOrder { line: (i + 3) as usize })
    } else if !(ls[i + 4] is M) {
        Err(TraceError::OutOfOrder { line: (i + 4) as usize })
    } else if !(ls[i + 5] is W) {
        Err(TraceError::OutOfOrder { line: (i + 5) as usize })
    } else {
        match spec_cycles_from(ls, i + 6) {
            Ok(rest) => Ok(
                seq![
                    Cycle {
                        f: ls[i]->F_0,
                        d: ls[i + 1]->D_0,
                        r: ls[i + 2]->R_0,
                        e: ls[i + 3]->E_0,
                        m: ls[i + 4]->M_0,
                        w: ls[i + 5]->W_0,
                    }
                ] + rest,
            ),
            Err(e) => Err(e),
        }
    }
}

/// Grouping of a whole line sequence into cycles.
pub open spec fn spec_cycles(ls: Seq<ParsedLine>) -> Result<Seq<Cycle>, TraceError> {
    spec_cycles_from(ls, 0)
}

/// Groups the lines of a trace into cycles, checking the strict repeating
/// stage order; the error names the first offending line.
pub fn cycles_of(lines: &Vec<ParsedLine>) -> (r: Result<Vec<Cycle>, TraceError>)
    ensures
        match r {
            Ok(cs) => spec_cycles(lines@) == Ok::<Seq<Cycle>, TraceError>(cs@),
            Err(e) => spec_cycles(lines@) == Err::<Seq<Cycle>, TraceError>(e),
        },
{
    let n: usize = lines.len();
    let mut out: Vec<Cycle> = Vec::new();
    let mut i: usize = 0;
    while i < n
        invariant
            0 <= i <= n,
            n == lines@.len(),
            i % 6 == 0,
            spec_cycles(lines@) == match spec_cycles_from(lines@, i as int) {
                Ok(rest) => Ok::<Seq<Cycle>, TraceError>(out@ + rest),
                Err(e) => Err::<Seq<Cycle>, TraceError>(e),
            },
        decreases n - i,
    {
        if n - i < 6 {
            return Err(TraceError::Truncated { lines: i });
        }
        let c = match (lines[i], lines[i + 1], lines[i + 2], lines[i + 3], lines[i + 4], lines[i
            + 5]) {
            (
                ParsedLine::F(f),
                ParsedLine::D(d),
                ParsedLine::R(r),
                ParsedLine::E(e),
                ParsedLine::M(m),
                ParsedLine::W(w),
            ) => Cycle { f, d, r, e, m, w },
            _ => {
                let bad: usize = if !matches!(lines[i], ParsedLine::F(_)) {
                    i
                } else if !matches!(lines[i + 1], ParsedLine::D(_)) {
                    i + 1
                } else if !matches!(lines[i + 2], ParsedLine::R(_)) {
                    i + 2
                } else if !matches!(lines[i + 3], ParsedLine::E(_)) {
                    i + 3
                } else if !matches!(lines[i + 4], ParsedLine::M(_)) {
                    i + 4
                } else {
                    i + 5
                };
                return Err(TraceError::OutOfOrder { line: bad });
            },
        };
        let ghost prev = out@;
        out.push(c);
        proof {
            let r2 = spec_cycles_from(lines@, i as int + 6);
            if r2 is Ok {
                assert(prev + (seq![c] + r2->Ok_0) =~= out@ + r2->Ok_0);
            }
        }
        i = i + 6;
    }
    assert(spec_cycles_from(lines@, i as int) == Ok::<Seq<Cycle>, TraceError>(
        Seq::<Cycle>::empty(),
    ));
    assert(out@ + Seq::<Cycle>::empty() =~= out@);
    Ok(out)
}

} // verus!

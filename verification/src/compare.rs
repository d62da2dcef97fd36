//! The field-masked comparison engine.
//!
//! The golden trace alone drives a reconstruction of pipeline occupancy:
//! stalls are inferred from repeated decode/execute program counters,
//! squashes from taken branches and unconditional jumps in execute, and — in
//! the delayed-fetch variant — the instruction word of a fetch is read from
//! the next cycle's fetch line.  Each cycle, every occupied stage slot of
//! the golden and candidate traces is compared under a mask derived from the
//! occupant's instruction class; mismatches are recorded per field and
//! summed into a total.
//!
//! Alongside the golden/candidate comparison, the engine checks the golden
//! trace against the instruction classifier's own predictions.  A
//! disagreement there signals a broken golden trace or an engine bug, not a
//! candidate failure, and aborts the run as a distinct fatal outcome.

use vstd::prelude::*;

use crate::instr::{
    get_funct3, get_funct7, get_imm, get_rd, get_rs1, get_rs2, get_shamt, is_btype, is_fence,
    is_memory, is_stype, is_system, is_uncond_jump, spec_funct3, spec_funct7, spec_imm, spec_is_btype,
    spec_is_fence, spec_is_memory, spec_is_stype, spec_is_system, spec_is_uncond_jump, spec_rd,
    spec_rs1, spec_rs2, spec_shamt,
};
use crate::pipeline::{
    spec_advance, spec_advance_stalled, spec_empty_pipeline, spec_squash_fd, Occupant, Pipeline,
    StageState,
};
use crate::record::{Cycle, DecodeRec, ExecRec, FetchRec, MemRec, ParsedLine, RegRec, WbRec};

verus! {

/// One compared trace field.
#[derive(Clone, Copy, PartialEq, Eq, Structural, Debug)]
pub enum Field {
    FPc,
    FInstr,
    DPcDrift,
    DPc,
    DOpcode,
    DRd,
    DRs1,
    DRs2,
    DFunct3,
    DFunct7,
    DImm,
    DShamt,
    RRs1Addr,
    RRs1Data,
    RRs2Addr,
    RRs2Data,
    EPc,
    EAluResult,
    EBranchTaken,
    MPc,
    MReadNotWrite,
    MAddr,
    MAccessSize,
    MWriteData,
    WPcDrift,
    WPc,
    WWe,
    WRdAddr,
    WRdData,
}

/// A pipeline stage, as named in fatal diagnostics.
#[derive(Clone, Copy, PartialEq, Eq, Structural, Debug)]
pub enum Stage {
    Fetch,
    Decode,
    RegisterRead,
    Execute,
    Memory,
    Writeback,
}

/// A fatal internal-consistency violation: the golden trace disagrees with
/// the engine's own reconstruction or with the instruction classifier.
/// Distinct from a reported candidate mismatch.
#[derive(Clone, Copy, PartialEq, Eq, Structural, Debug)]
pub enum FatalKind {
    /// The golden line's program counter differs from the reconstructed
    /// slot's program counter.
    StagePc { stage: Stage },
    /// A golden field defined for the occupant differs from the value the
    /// classifier predicts.
    GoldenField { field: Field },
    /// A stage must be compared but its occupant's instruction word is
    /// still unknown.
    WordUnknown { stage: Stage },
    /// The golden and candidate lines at one position carry different
    /// stage tags (per-line comparison only).
    MismatchedLine,
    /// A stage line appeared before any fetch line (per-line comparison
    /// only).
    NoPriorFetch,
}

/// Which pipeline variant the engine models and which stages it compares.
#[derive(Clone, Copy, PartialEq, Eq, Structural, Debug)]
pub struct EngineConfig {
    /// Fetch has one extra cycle of latency: the instruction word for a
    /// fetched program counter appears only on the next cycle's fetch line,
    /// and register-read data likewise lags one cycle.
    pub delayed_fetch: bool,
    /// Compare only writeback activity, ignoring the internal stages.
    pub writeback_only: bool,
    /// An unconditional jump always squashes the next cycle's fetch and
    /// decode; with this off, the golden execute line's branch-taken flag
    /// decides for jumps too.
    pub jump_always_squashes: bool,
}

/// The engine's per-cycle state: the reconstructed pipeline and whether the
/// previous cycle's execute stage demanded a squash.
#[derive(Clone, Copy, PartialEq, Eq, Structural, Debug)]
pub struct EngineState {
    pub pipe: Pipeline,
    pub squash_pending: bool,
}

/// The state a comparison run begins in: an all-bubble pipeline and no
/// pending squash.
pub open spec fn spec_init_state() -> EngineState {
    EngineState { pipe: spec_empty_pipeline(), squash_pending: false }
}

/// The squash requested by the previous cycle, applied before anything else.
pub open spec fn spec_squash_phase(st: EngineState) -> EngineState {
    if st.squash_pending {
        EngineState { pipe: spec_squash_fd(st.pipe), squash_pending: false }
    } else {
        st
    }
}

/// The stall condition: the decode slot holds an instruction, yet the
/// golden trace still shows the same program counter entering execute as
/// decode — the instruction never moved.  A bubble in decode never stalls.
pub open spec fn spec_stall(p: Pipeline, g_d_pc: u32, g_e_pc: u32) -> bool {
    !p.d.spec_is_bubble() && g_d_pc == g_e_pc
}

/// Whether the instruction now in execute demands that the next cycle's
/// fetch and decode be squashed: a branch whose golden branch-taken flag is
/// set, or an unconditional jump.
pub open spec fn spec_squash_decision(cfg: EngineConfig, e: StageState, g_e: ExecRec) -> bool {
    match e.occ {
        Occupant::Instr(w) => if spec_is_btype(w) {
            g_e.branch_taken
        } else if spec_is_uncond_jump(w) {
            cfg.jump_always_squashes || g_e.branch_taken
        } else {
            false
        },
        _ => false,
    }
}

/// One cycle of pipeline-model updating, driven by the golden trace alone.
/// Returns the state for the comparisons of this cycle, and whether the
/// golden trace signalled end-of-program instead (a zero fetch program
/// counter, or an all-zero fetched instruction word).
pub open spec fn spec_model_step(cfg: EngineConfig, st: EngineState, g: Cycle, g_next: Cycle) -> (
    EngineState,
    bool,
) {
    let p1 = spec_squash_phase(st).pipe;
    let stall = spec_stall(p1, g.d.pc, g.e.pc);
    if cfg.delayed_fetch {
        let stall_next = spec_stall(p1, g_next.d.pc, g_next.e.pc);
        let p2 = if !stall_next && p1.f.occ is WordPending {
            Pipeline { f: StageState { pc: p1.f.pc, occ: Occupant::Instr(g_next.f.instr) }, ..p1 }
        } else {
            p1
        };
        if stall {
            let p3 = spec_advance_stalled(p2);
            (EngineState { pipe: p3, squash_pending: spec_squash_decision(cfg, p3.e, g.e) }, false)
        } else if g.f.pc == 0 {
            (EngineState { pipe: p2, squash_pending: false }, true)
        } else if stall_next {
            let p3 = spec_advance(p2, StageState { pc: g.f.pc, occ: Occupant::WordPending });
            (EngineState { pipe: p3, squash_pending: spec_squash_decision(cfg, p3.e, g.e) }, false)
        } else if g_next.f.instr == 0 {
            (EngineState { pipe: p2, squash_pending: false }, true)
        } else {
            let p3 = spec_advance(
                p2,
                StageState { pc: g.f.pc, occ: Occupant::Instr(g_next.f.instr) },
            );
            (EngineState { pipe: p3, squash_pending: spec_squash_decision(cfg, p3.e, g.e) }, false)
        }
    } else {
        if stall {
            let p3 = spec_advance_stalled(p1);
            (EngineState { pipe: p3, squash_pending: spec_squash_decision(cfg, p3.e, g.e) }, false)
        } else if g.f.pc == 0 {
            (EngineState { pipe: p1, squash_pending: false }, true)
        } else if g.f.instr == 0 {
            (EngineState { pipe: p1, squash_pending: false }, true)
        } else {
            let p3 = spec_advance(p1, StageState { pc: g.f.pc, occ: Occupant::Instr(g.f.instr) });
            (EngineState { pipe: p3, squash_pending: spec_squash_decision(cfg, p3.e, g.e) }, false)
        }
    }
}

impl EngineState {
    /// The state a comparison run begins in.
    pub fn new() -> (s: EngineState)
        ensures
            s == spec_init_state(),
    {
        EngineState { pipe: Pipeline::empty(), squash_pending: false }
    }

    /// Performs one cycle of pipeline-model updating on this state, driven
    /// by the golden trace's current and next cycles (the next cycle is read
    /// only in the delayed-fetch variant).  Returns whether the golden trace
    /// signalled end-of-program.
    pub fn step(&mut self, cfg: EngineConfig, g: &Cycle, g_next: &Cycle) -> (halted: bool)
        ensures
            *final(self) == spec_model_step(cfg, *old(self), *g, *g_next).0,
            halted == spec_model_step(cfg, *old(self), *g, *g_next).1,
    {
        if self.squash_pending {
            self.pipe.squash_fetch_and_decode();
            self.squash_pending = false;
        }
        let stall = !self.pipe.d.is_bubble() && g.d.pc == g.e.pc;
        if cfg.delayed_fetch {
            let stall_next = !self.pipe.d.is_bubble() && g_next.d.pc == g_next.e.pc;
            if !stall_next && matches!(self.pipe.f.occ, Occupant::WordPending) {
                self.pipe.f.occ = Occupant::Instr(g_next.f.instr);
            }
            if stall {
                self.pipe.dumb_advance_with_stalled_fetch_and_decode();
                self.squash_pending = squash_decide(cfg, &self.pipe.e, &g.e);
                false
            } else if g.f.pc == 0 {
                true
            } else if stall_next {
                self.pipe.dumb_advance(g.f.pc, Occupant::WordPending);
                self.squash_pending = squash_decide(cfg, &self.pipe.e, &g.e);
                false
            } else if g_next.f.instr == 0 {
                true
            } else {
                self.pipe.dumb_advance(g.f.pc, Occupant::Instr(g_next.f.instr));
                self.squash_pending = squash_decide(cfg, &self.pipe.e, &g.e);
                false
            }
        } else {
            if stall {
                self.pipe.dumb_advance_with_stalled_fetch_and_decode();
                self.squash_pending = squash_decide(cfg, &self.pipe.e, &g.e);
                false
            } else if g.f.pc == 0 || g.f.instr == 0 {
                true
            } else {
                self.pipe.dumb_advance(g.f.pc, Occupant::Instr(g.f.instr));
                self.squash_pending = squash_decide(cfg, &self.pipe.e, &g.e);
                false
            }
        }
    }
}

/// Decides whether the execute slot's occupant demands a squash of the next
/// cycle's fetch and decode.
fn squash_decide(cfg: EngineConfig, e: &StageState, g_e: &ExecRec) -> (r: bool)
    ensures
        r == spec_squash_decision(cfg, *e, *g_e),
{
    match e.occ {
        Occupant::Instr(w) => {
            if is_btype(w) {
                g_e.branch_taken
            } else if is_uncond_jump(w) {
                cfg.jump_always_squashes || g_e.branch_taken
            } else {
                false
            }
        },
        _ => false,
    }
}

/// One field if a condition holds, else nothing: the building block of the
/// per-stage masks.
pub open spec fn cond(b: bool, f: Field) -> Seq<Field> {
    if b {
        seq![f]
    } else {
        Seq::empty()
    }
}

/// Fetch mask: program counter and instruction word, always.
pub open spec fn fetch_fields(g: FetchRec, t: FetchRec) -> Seq<Field> {
    cond(g.pc != t.pc, Field::FPc) + cond(g.instr != t.instr, Field::FInstr)
}

/// Decode mask for occupant word `w`: program counter always; opcode unless
/// the occupant is a fence; each remaining field only where the classifier
/// defines it for `w`.
pub open spec fn decode_fields(g: DecodeRec, t: DecodeRec, w: u32) -> Seq<Field> {
    cond(g.pc != t.pc, Field::DPc) + cond(
        !spec_is_fence(w) && g.opcode != t.opcode,
        Field::DOpcode,
    ) + cond(spec_rd(w) is Some && g.rd != t.rd, Field::DRd) + cond(
        spec_rs1(w) is Some && g.rs1 != t.rs1,
        Field::DRs1,
    ) + cond(spec_rs2(w) is Some && g.rs2 != t.rs2, Field::DRs2) + cond(
        spec_funct3(w) is Some && g.funct3 != t.funct3,
        Field::DFunct3,
    ) + cond(spec_funct7(w) is Some && g.funct7 != t.funct7, Field::DFunct7) + cond(
        spec_imm(w) is Some && g.imm != t.imm,
        Field::DImm,
    ) + cond(spec_shamt(w) is Some && g.shamt != t.shamt, Field::DShamt)
}

/// Consistency of a golden decode line with the classifier: program counter
/// against the reconstructed slot, then each defined field against its
/// predicted value.
pub open spec fn decode_fatal(g: DecodeRec, model_pc: u32, w: u32) -> Option<FatalKind> {
    if g.pc != model_pc {
        Some(FatalKind::StagePc { stage: Stage::Decode })
    } else {
        decode_pred_fatal(g, w)
    }
}

/// Consistency of a golden decode line's fields with the classifier's
/// predictions for occupant word `w`, in field order.
pub open spec fn decode_pred_fatal(g: DecodeRec, w: u32) -> Option<FatalKind> {
    if spec_rd(w) is Some && g.rd != spec_rd(w)->Some_0 {
        Some(FatalKind::GoldenField { field: Field::DRd })
    } else if spec_rs1(w) is Some && g.rs1 != spec_rs1(w)->Some_0 {
        Some(FatalKind::GoldenField { field: Field::DRs1 })
    } else if spec_rs2(w) is Some && g.rs2 != spec_rs2(w)->Some_0 {
        Some(FatalKind::GoldenField { field: Field::DRs2 })
    } else if spec_funct3(w) is Some && g.funct3 != spec_funct3(w)->Some_0 {
        Some(FatalKind::GoldenField { field: Field::DFunct3 })
    } else if spec_funct7(w) is Some && g.funct7 != spec_funct7(w)->Some_0 {
        Some(FatalKind::GoldenField { field: Field::DFunct7 })
    } else if spec_imm(w) is Some && g.imm != spec_imm(w)->Some_0 {
        Some(FatalKind::GoldenField { field: Field::DImm })
    } else if spec_shamt(w) is Some && g.shamt != spec_shamt(w)->Some_0 {
        Some(FatalKind::GoldenField { field: Field::DShamt })
    } else {
        None
    }
}

/// Register-read mask for occupant word `w`: each source register's address
/// and data, only where the classifier defines that register.  Addresses
/// come from the current cycle's lines; data comes from `gd`/`td`, which the
/// delayed-fetch variant draws from the next cycle.
pub open spec fn regread_fields(ga: RegRec, ta: RegRec, gd: RegRec, td: RegRec, w: u32) -> Seq<
    Field,
> {
    cond(spec_rs1(w) is Some && ga.addr_rs1 != ta.addr_rs1, Field::RRs1Addr) + cond(
        spec_rs1(w) is Some && gd.data_rs1 != td.data_rs1,
        Field::RRs1Data,
    ) + cond(spec_rs2(w) is Some && ga.addr_rs2 != ta.addr_rs2, Field::RRs2Addr) + cond(
        spec_rs2(w) is Some && gd.data_rs2 != td.data_rs2,
        Field::RRs2Data,
    )
}

/// Consistency of a golden register-read line with the classifier: each
/// defined source register's address against its predicted value.
pub open spec fn regread_fatal(ga: RegRec, w: u32) -> Option<FatalKind> {
    if spec_rs1(w) is Some && ga.addr_rs1 != spec_rs1(w)->Some_0 {
        Some(FatalKind::GoldenField { field: Field::RRs1Addr })
    } else if spec_rs2(w) is Some && ga.addr_rs2 != spec_rs2(w)->Some_0 {
        Some(FatalKind::GoldenField { field: Field::RRs2Addr })
    } else {
        None
    }
}

/// Execute mask for occupant word `w`: program counter always; the
/// arithmetic result unless the occupant is a fence or a system
/// instruction; the branch-taken flag only for branches.
pub open spec fn execute_fields(g: ExecRec, t: ExecRec, w: u32) -> Seq<Field> {
    cond(g.pc != t.pc, Field::EPc) + cond(
        !spec_is_fence(w) && !spec_is_system(w) && g.alu_result != t.alu_result,
        Field::EAluResult,
    ) + cond(spec_is_btype(w) && g.branch_taken != t.branch_taken, Field::EBranchTaken)
}

/// Consistency of a golden execute line: its program counter against the
/// reconstructed slot.
pub open spec fn execute_fatal(g: ExecRec, model_pc: u32) -> Option<FatalKind> {
    if g.pc != model_pc {
        Some(FatalKind::StagePc { stage: Stage::Execute })
    } else {
        None
    }
}

/// Memory mask for occupant word `w`: program counter and the
/// read-not-write flag always; address and access size only for memory
/// operations; write data only for stores.
pub open spec fn memory_fields(g: MemRec, t: MemRec, w: u32) -> Seq<Field> {
    cond(g.pc != t.pc, Field::MPc) + cond(
        g.read_not_write != t.read_not_write,
        Field::MReadNotWrite,
    ) + cond(spec_is_memory(w) && g.addr != t.addr, Field::MAddr) + cond(
        spec_is_memory(w) && g.access_size != t.access_size,
        Field::MAccessSize,
    ) + cond(spec_is_stype(w) && g.memory_wdata != t.memory_wdata, Field::MWriteData)
}

/// Consistency of a golden memory line: its program counter against the
/// reconstructed slot.
pub open spec fn memory_fatal(g: MemRec, model_pc: u32) -> Option<FatalKind> {
    if g.pc != model_pc {
        Some(FatalKind::StagePc { stage: Stage::Memory })
    } else {
        None
    }
}

/// Writeback mask for occupant word `w`: program counter always; unless the
/// occupant is a fence, the write-enable flag, and — where the classifier
/// defines a destination register — its address and data.
pub open spec fn writeback_fields(g: WbRec, t: WbRec, w: u32) -> Seq<Field> {
    cond(g.pc != t.pc, Field::WPc) + cond(!spec_is_fence(w) && g.we != t.we, Field::WWe) + cond(
        !spec_is_fence(w) && spec_rd(w) is Some && g.addr_rd != t.addr_rd,
        Field::WRdAddr,
    ) + cond(!spec_is_fence(w) && spec_rd(w) is Some && g.data_rd != t.data_rd, Field::WRdData)
}

/// Consistency of a golden writeback line: its program counter against the
/// reconstructed slot, and the destination register's address against its
/// predicted value where the mask compares it.
pub open spec fn writeback_fatal(g: WbRec, model_pc: u32, w: u32) -> Option<FatalKind> {
    if g.pc != model_pc {
        Some(FatalKind::StagePc { stage: Stage::Writeback })
    } else {
        writeback_pred_fatal(g, w)
    }
}

/// Consistency of a golden writeback line's destination-register address
/// with the classifier's prediction, where the mask compares it.
pub open spec fn writeback_pred_fatal(g: WbRec, w: u32) -> Option<FatalKind> {
    if !spec_is_fence(w) && spec_rd(w) is Some && g.addr_rd != spec_rd(w)->Some_0 {
        Some(FatalKind::GoldenField { field: Field::WRdAddr })
    } else {
        None
    }
}

/// Appends one field when its mask condition holds.
fn push_if(out: &mut Vec<Field>, b: bool, f: Field)
    ensures
        final(out)@ == old(out)@ + cond(b, f),
{
    if b {
        out.push(f);
    }
    proof {
        assert(out@ =~= old(out)@ + cond(b, f));
    }
}

/// Concatenation of sequences is associative.
proof fn lemma_concat_assoc<T>(a: Seq<T>, b: Seq<T>, c: Seq<T>)
    ensures
        (a + b) + c =~= a + (b + c),
{
}

/// Appends the fetch mask's mismatches.
fn push_fetch_fields(out: &mut Vec<Field>, g: &FetchRec, t: &FetchRec)
    ensures
        final(out)@ == old(out)@ + fetch_fields(*g, *t),
{
    let ghost base = out@;
    push_if(out, g.pc != t.pc, Field::FPc);
    push_if(out, g.instr != t.instr, Field::FInstr);
    proof {
        assert(out@ =~= base + fetch_fields(*g, *t));
    }
}

/// Appends the decode mask's mismatches for occupant word `w`.
fn push_decode_fields(out: &mut Vec<Field>, g: &DecodeRec, t: &DecodeRec, w: u32)
    ensures
        final(out)@ == old(out)@ + decode_fields(*g, *t, w),
{
    let ghost base = out@;
    push_if(out, g.pc != t.pc, Field::DPc);
    push_if(out, !is_fence(w) && g.opcode != t.opcode, Field::DOpcode);
    push_if(out, get_rd(w).is_some() && g.rd != t.rd, Field::DRd);
    push_if(out, get_rs1(w).is_some() && g.rs1 != t.rs1, Field::DRs1);
    push_if(out, get_rs2(w).is_some() && g.rs2 != t.rs2, Field::DRs2);
    push_if(out, get_funct3(w).is_some() && g.funct3 != t.funct3, Field::DFunct3);
    push_if(out, get_funct7(w).is_some() && g.funct7 != t.funct7, Field::DFunct7);
    push_if(out, get_imm(w).is_some() && g.imm != t.imm, Field::DImm);
    push_if(out, get_shamt(w).is_some() && g.shamt != t.shamt, Field::DShamt);
    proof {
        let c1 = cond(g.pc != t.pc, Field::DPc);
        let c2 = cond(!spec_is_fence(w) && g.opcode != t.opcode, Field::DOpcode);
        let c3 = cond(spec_rd(w) is Some && g.rd != t.rd, Field::DRd);
        let c4 = cond(spec_rs1(w) is Some && g.rs1 != t.rs1, Field::DRs1);
        let c5 = cond(spec_rs2(w) is Some && g.rs2 != t.rs2, Field::DRs2);
        let c6 = cond(spec_funct3(w) is Some && g.funct3 != t.funct3, Field::DFunct3);
        let c7 = cond(spec_funct7(w) is Some && g.funct7 != t.funct7, Field::DFunct7);
        let c8 = cond(spec_imm(w) is Some && g.imm != t.imm, Field::DImm);
        let c9 = cond(spec_shamt(w) is Some && g.shamt != t.shamt, Field::DShamt);
        lemma_concat_assoc(base, c1, c2);
        lemma_concat_assoc(base, c1 + c2, c3);
        lemma_concat_assoc(base, c1 + c2 + c3, c4);
        lemma_concat_assoc(base, c1 + c2 + c3 + c4, c5);
        lemma_concat_assoc(base, c1 + c2 + c3 + c4 + c5, c6);
        lemma_concat_assoc(base, c1 + c2 + c3 + c4 + c5 + c6, c7);
        lemma_concat_assoc(base, c1 + c2 + c3 + c4 + c5 + c6 + c7, c8);
        lemma_concat_assoc(base, c1 + c2 + c3 + c4 + c5 + c6 + c7 + c8, c9);
        assert(out@ == base + decode_fields(*g, *t, w));
    }
}

/// Appends the register-read mask's mismatches for occupant word `w`.
fn push_regread_fields(
    out: &mut Vec<Field>,
    ga: &RegRec,
    ta: &RegRec,
    gd: &RegRec,
    td: &RegRec,
    w: u32,
)
    ensures
        final(out)@ == old(out)@ + regread_fields(*ga, *ta, *gd, *td, w),
{
    let ghost base = out@;
    push_if(out, get_rs1(w).is_some() && ga.addr_rs1 != ta.addr_rs1, Field::RRs1Addr);
    push_if(out, get_rs1(w).is_some() && gd.data_rs1 != td.data_rs1, Field::RRs1Data);
    push_if(out, get_rs2(w).is_some() && ga.addr_rs2 != ta.addr_rs2, Field::RRs2Addr);
    push_if(out, get_rs2(w).is_some() && gd.data_rs2 != td.data_rs2, Field::RRs2Data);
    proof {
        assert(out@ =~= base + regread_fields(*ga, *ta, *gd, *td, w));
    }
}

/// Appends the execute mask's mismatches for occupant word `w`.
fn push_execute_fields(out: &mut Vec<Field>, g: &ExecRec, t: &ExecRec, w: u32)
    ensures
        final(out)@ == old(out)@ + execute_fields(*g, *t, w),
{
    let ghost base = out@;
    push_if(out, g.pc != t.pc, Field::EPc);
    push_if(out, !is_fence(w) && !is_system(w) && g.alu_result != t.alu_result, Field::EAluResult);
    push_if(out, is_btype(w) && g.branch_taken != t.branch_taken, Field::EBranchTaken);
    proof {
        assert(out@ =~= base + execute_fields(*g, *t, w));
    }
}

/// Appends the memory mask's mismatches for occupant word `w`.
fn push_memory_fields(out: &mut Vec<Field>, g: &MemRec, t: &MemRec, w: u32)
    ensures
        final(out)@ == old(out)@ + memory_fields(*g, *t, w),
{
    let ghost base = out@;
    push_if(out, g.pc != t.pc, Field::MPc);
    push_if(out, g.read_not_write != t.read_not_write, Field::MReadNotWrite);
    push_if(out, is_memory(w) && g.addr != t.addr, Field::MAddr);
    push_if(out, is_memory(w) && g.access_size != t.access_size, Field::MAccessSize);
    push_if(out, is_stype(w) && g.memory_wdata != t.memory_wdata, Field::MWriteData);
    proof {
        assert(out@ =~= base + memory_fields(*g, *t, w));
    }
}

/// Appends the writeback mask's mismatches for occupant word `w`.
fn push_writeback_fields(out: &mut Vec<Field>, g: &WbRec, t: &WbRec, w: u32)
    ensures
        final(out)@ == old(out)@ + writeback_fields(*g, *t, w),
{
    let ghost base = out@;
    push_if(out, g.pc != t.pc, Field::WPc);
    push_if(out, !is_fence(w) && g.we != t.we, Field::WWe);
    push_if(out, !is_fence(w) && get_rd(w).is_some() && g.addr_rd != t.addr_rd, Field::WRdAddr);
    push_if(out, !is_fence(w) && get_rd(w).is_some() && g.data_rd != t.data_rd, Field::WRdData);
    proof {
        assert(out@ =~= base + writeback_fields(*g, *t, w));
    }
}

/// Checks a golden decode line's consistency with the classifier.
fn check_decode_fatal(g: &DecodeRec, model_pc: u32, w: u32) -> (r: Option<FatalKind>)
    ensures
        r == decode_fatal(*g, model_pc, w),
{
    if g.pc != model_pc {
        return Some(FatalKind::StagePc { stage: Stage::Decode });
    }
    check_decode_pred_fatal(g, w)
}

/// Checks a golden decode line's fields against the classifier.
fn check_decode_pred_fatal(g: &DecodeRec, w: u32) -> (r: Option<FatalKind>)
    ensures
        r == decode_pred_fatal(*g, w),
{
    if let Some(v) = get_rd(w) {
        if g.rd != v {
            return Some(FatalKind::GoldenField { field: Field::DRd });
        }
    }
    if let Some(v) = get_rs1(w) {
        if g.rs1 != v {
            return Some(FatalKind::GoldenField { field: Field::DRs1 });
        }
    }
    if let Some(v) = get_rs2(w) {
        if g.rs2 != v {
            return Some(FatalKind::GoldenField { field: Field::DRs2 });
        }
    }
    if let Some(v) = get_funct3(w) {
        if g.funct3 != v {
            return Some(FatalKind::GoldenField { field: Field::DFunct3 });
        }
    }
    if let Some(v) = get_funct7(w) {
        if g.funct7 != v {
            return Some(FatalKind::GoldenField { field: Field::DFunct7 });
        }
    }
    if let Some(v) = get_imm(w) {
        if g.imm != v {
            return Some(FatalKind::GoldenField { field: Field::DImm });
        }
    }
    if let Some(v) = get_shamt(w) {
        if g.shamt != v {
            return Some(FatalKind::GoldenField { field: Field::DShamt });
        }
    }
    None
}

/// Checks a golden register-read line's consistency with the classifier.
fn check_regread_fatal(ga: &RegRec, w: u32) -> (r: Option<FatalKind>)
    ensures
        r == regread_fatal(*ga, w),
{
    if let Some(v) = get_rs1(w) {
        if ga.addr_rs1 != v {
            return Some(FatalKind::GoldenField { field: Field::RRs1Addr });
        }
    }
    if let Some(v) = get_rs2(w) {
        if ga.addr_rs2 != v {
            return Some(FatalKind::GoldenField { field: Field::RRs2Addr });
        }
    }
    None
}

/// Checks a golden writeback line's consistency with the classifier.
fn check_writeback_fatal(g: &WbRec, model_pc: u32, w: u32) -> (r: Option<FatalKind>)
    ensures
        r == writeback_fatal(*g, model_pc, w),
{
    if g.pc != model_pc {
        return Some(FatalKind::StagePc { stage: Stage::Writeback });
    }
    check_writeback_pred_fatal(g, w)
}

/// Checks a golden writeback line's destination-register address against
/// the classifier.
fn check_writeback_pred_fatal(g: &WbRec, w: u32) -> (r: Option<FatalKind>)
    ensures
        r == writeback_pred_fatal(*g, w),
{
    if !is_fence(w) {
        if let Some(v) = get_rd(w) {
            if g.addr_rd != v {
                return Some(FatalKind::GoldenField { field: Field::WRdAddr });
            }
        }
    }
    None
}

/// The first of two consistency findings.
pub open spec fn or_else(a: Option<FatalKind>, b: Option<FatalKind>) -> Option<FatalKind> {
    if a is Some {
        a
    } else {
        b
    }
}

/// Consistency finding for the decode/register-read slot: a bubble needs
/// nothing; an occupant whose word is unknown cannot be checked; a real
/// occupant is held to the classifier's predictions.
pub open spec fn slot_fatal_decode(s: StageState, g_d: DecodeRec, g_r: RegRec) -> Option<
    FatalKind,
> {
    match s.occ {
        Occupant::Bubble => None,
        Occupant::WordPending => Some(FatalKind::WordUnknown { stage: Stage::Decode }),
        Occupant::Instr(w) => or_else(decode_fatal(g_d, s.pc, w), regread_fatal(g_r, w)),
    }
}

/// Consistency finding for the execute slot.
pub open spec fn slot_fatal_execute(s: StageState, g_e: ExecRec) -> Option<FatalKind> {
    match s.occ {
        Occupant::Bubble => None,
        Occupant::WordPending => Some(FatalKind::WordUnknown { stage: Stage::Execute }),
        Occupant::Instr(w) => execute_fatal(g_e, s.pc),
    }
}

/// Consistency finding for the memory slot.
pub open spec fn slot_fatal_memory(s: StageState, g_m: MemRec) -> Option<FatalKind> {
    match s.occ {
        Occupant::Bubble => None,
        Occupant::WordPending => Some(FatalKind::WordUnknown { stage: Stage::Memory }),
        Occupant::Instr(w) => memory_fatal(g_m, s.pc),
    }
}

/// Consistency finding for the writeback slot.
pub open spec fn slot_fatal_writeback(s: StageState, g_w: WbRec) -> Option<FatalKind> {
    match s.occ {
        Occupant::Bubble => None,
        Occupant::WordPending => Some(FatalKind::WordUnknown { stage: Stage::Writeback }),
        Occupant::Instr(w) => writeback_fatal(g_w, s.pc, w),
    }
}

/// The cycle's consistency finding: the first violation in stage order, or
/// none.  The candidate trace plays no part here.
pub open spec fn cycle_fatal(cfg: EngineConfig, p: Pipeline, g: Cycle) -> Option<FatalKind> {
    if cfg.writeback_only {
        slot_fatal_writeback(p.w, g.w)
    } else {
        or_else(
            if g.f.pc != p.f.pc {
                Some(FatalKind::StagePc { stage: Stage::Fetch })
            } else {
                None
            },
            or_else(
                slot_fatal_decode(p.d, g.d, g.r),
                or_else(
                    slot_fatal_execute(p.e, g.e),
                    or_else(slot_fatal_memory(p.m, g.m), slot_fatal_writeback(p.w, g.w)),
                ),
            ),
        )
    }
}

/// The decode/register-read slot's compared fields: nothing unless the slot
/// holds a known instruction.
pub open spec fn slot_fields_decode(
    s: StageState,
    g_d: DecodeRec,
    t_d: DecodeRec,
    ga: RegRec,
    ta: RegRec,
    gd: RegRec,
    td: RegRec,
) -> Seq<Field> {
    match s.occ {
        Occupant::Instr(w) => decode_fields(g_d, t_d, w) + regread_fields(ga, ta, gd, td, w),
        _ => Seq::empty(),
    }
}

/// The execute slot's compared fields.
pub open spec fn slot_fields_execute(s: StageState, g_e: ExecRec, t_e: ExecRec) -> Seq<Field> {
    match s.occ {
        Occupant::Instr(w) => execute_fields(g_e, t_e, w),
        _ => Seq::empty(),
    }
}

/// The memory slot's compared fields.
pub open spec fn slot_fields_memory(s: StageState, g_m: MemRec, t_m: MemRec) -> Seq<Field> {
    match s.occ {
        Occupant::Instr(w) => memory_fields(g_m, t_m, w),
        _ => Seq::empty(),
    }
}

/// The writeback slot's compared fields.
pub open spec fn slot_fields_writeback(s: StageState, g_w: WbRec, t_w: WbRec) -> Seq<Field> {
    match s.occ {
        Occupant::Instr(w) => writeback_fields(g_w, t_w, w),
        _ => Seq::empty(),
    }
}

/// Every field mismatch of one cycle, in stage order, under the masks the
/// reconstructed pipeline selects.  `gd`/`td` carry the register-read lines
/// whose data is compared, which the delayed-fetch variant draws from the
/// next cycle.
pub open spec fn cycle_fields(
    cfg: EngineConfig,
    p: Pipeline,
    g: Cycle,
    t: Cycle,
    gd: RegRec,
    td: RegRec,
) -> Seq<Field> {
    if cfg.writeback_only {
        slot_fields_writeback(p.w, g.w, t.w)
    } else {
        fetch_fields(g.f, t.f) + slot_fields_decode(p.d, g.d, t.d, g.r, t.r, gd, td)
            + slot_fields_execute(p.e, g.e, t.e) + slot_fields_memory(p.m, g.m, t.m)
            + slot_fields_writeback(p.w, g.w, t.w)
    }
}

/// Checks the cycle's golden lines for consistency violations.
fn check_cycle_fatal(cfg: EngineConfig, p: &Pipeline, g: &Cycle) -> (r: Option<FatalKind>)
    ensures
        r == cycle_fatal(cfg, *p, *g),
{
    if cfg.writeback_only {
        check_slot_fatal_writeback(&p.w, &g.w)
    } else {
        if g.f.pc != p.f.pc {
            return Some(FatalKind::StagePc { stage: Stage::Fetch });
        }
        let r = check_slot_fatal_decode(&p.d, &g.d, &g.r);
        if r.is_some() {
            return r;
        }
        let r = match p.e.occ {
            Occupant::Bubble => None,
            Occupant::WordPending => Some(FatalKind::WordUnknown { stage: Stage::Execute }),
            Occupant::Instr(_) => {
                if g.e.pc != p.e.pc {
                    Some(FatalKind::StagePc { stage: Stage::Execute })
                } else {
                    None
                }
            },
        };
        if r.is_some() {
            return r;
        }
        let r = match p.m.occ {
            Occupant::Bubble => None,
            Occupant::WordPending => Some(FatalKind::WordUnknown { stage: Stage::Memory }),
            Occupant::Instr(_) => {
                if g.m.pc != p.m.pc {
                    Some(FatalKind::StagePc { stage: Stage::Memory })
                } else {
                    None
                }
            },
        };
        if r.is_some() {
            return r;
        }
        check_slot_fatal_writeback(&p.w, &g.w)
    }
}

/// Checks the decode/register-read slot's golden lines for consistency.
fn check_slot_fatal_decode(s: &StageState, g_d: &DecodeRec, g_r: &RegRec) -> (r: Option<
    FatalKind,
>)
    ensures
        r == slot_fatal_decode(*s, *g_d, *g_r),
{
    match s.occ {
        Occupant::Bubble => None,
        Occupant::WordPending => Some(FatalKind::WordUnknown { stage: Stage::Decode }),
        Occupant::Instr(w) => {
            let r = check_decode_fatal(g_d, s.pc, w);
            if r.is_some() {
                r
            } else {
                check_regread_fatal(g_r, w)
            }
        },
    }
}

/// Checks the writeback slot's golden line for consistency.
fn check_slot_fatal_writeback(s: &StageState, g_w: &WbRec) -> (r: Option<FatalKind>)
    ensures
        r == slot_fatal_writeback(*s, *g_w),
{
    match s.occ {
        Occupant::Bubble => None,
        Occupant::WordPending => Some(FatalKind::WordUnknown { stage: Stage::Writeback }),
        Occupant::Instr(w) => check_writeback_fatal(g_w, s.pc, w),
    }
}

/// Collects the cycle's field mismatches under the masks the reconstructed
/// pipeline selects.
fn collect_cycle_fields(
    cfg: EngineConfig,
    p: &Pipeline,
    g: &Cycle,
    t: &Cycle,
    gd: &RegRec,
    td: &RegRec,
) -> (fs: Vec<Field>)
    ensures
        fs@ == cycle_fields(cfg, *p, *g, *t, *gd, *td),
{
    let mut out: Vec<Field> = Vec::new();
    if cfg.writeback_only {
        if let Occupant::Instr(w) = p.w.occ {
            push_writeback_fields(&mut out, &g.w, &t.w, w);
        }
        proof {
            assert(out@ =~= cycle_fields(cfg, *p, *g, *t, *gd, *td));
        }
        return out;
    }
    push_fetch_fields(&mut out, &g.f, &t.f);
    let ghost s1 = out@;
    if let Occupant::Instr(w) = p.d.occ {
        push_decode_fields(&mut out, &g.d, &t.d, w);
        push_regread_fields(&mut out, &g.r, &t.r, gd, td, w);
        proof {
            lemma_concat_assoc(
                s1,
                decode_fields(g.d, t.d, w),
                regread_fields(g.r, t.r, *gd, *td, w),
            );
        }
    }
    proof {
        assert(out@ == s1 + slot_fields_decode(p.d, g.d, t.d, g.r, t.r, *gd, *td)) by {
            if !(p.d.occ is Instr) {
                assert(s1 + Seq::<Field>::empty() =~= s1);
            }
        }
    }
    let ghost s2 = out@;
    if let Occupant::Instr(w) = p.e.occ {
        push_execute_fields(&mut out, &g.e, &t.e, w);
    }
    proof {
        assert(out@ == s2 + slot_fields_execute(p.e, g.e, t.e)) by {
            if !(p.e.occ is Instr) {
                assert(s2 + Seq::<Field>::empty() =~= s2);
            }
        }
    }
    let ghost s3 = out@;
    if let Occupant::Instr(w) = p.m.occ {
        push_memory_fields(&mut out, &g.m, &t.m, w);
    }
    proof {
        assert(out@ == s3 + slot_fields_memory(p.m, g.m, t.m)) by {
            if !(p.m.occ is Instr) {
                assert(s3 + Seq::<Field>::empty() =~= s3);
            }
        }
    }
    let ghost s4 = out@;
    if let Occupant::Instr(w) = p.w.occ {
        push_writeback_fields(&mut out, &g.w, &t.w, w);
    }
    proof {
        assert(out@ == s4 + slot_fields_writeback(p.w, g.w, t.w)) by {
            if !(p.w.occ is Instr) {
                assert(s4 + Seq::<Field>::empty() =~= s4);
            }
        }
        let a = fetch_fields(g.f, t.f);
        let b = slot_fields_decode(p.d, g.d, t.d, g.r, t.r, *gd, *td);
        let c = slot_fields_execute(p.e, g.e, t.e);
        let d = slot_fields_memory(p.m, g.m, t.m);
        let e = slot_fields_writeback(p.w, g.w, t.w);
        assert(Seq::<Field>::empty() + a =~= a);
        lemma_concat_assoc(a, b, c);
        lemma_concat_assoc(a + b, c, d);
        lemma_concat_assoc(a + b + c, d, e);
        assert(out@ == cycle_fields(cfg, *p, *g, *t, *gd, *td));
    }
    out
}

/// One compared cycle's entry in the mathematical run outcome.
#[verifier::ext_equal]
pub struct CycleEntry {
    pub idx: int,
    pub fields: Seq<Field>,
}

/// A fatal finding's place in the mathematical run outcome.
#[verifier::ext_equal]
pub struct FatalAt {
    pub cycle: int,
    pub kind: FatalKind,
}

/// The mathematical outcome of a comparison run: one entry per compared
/// cycle, and at most one of a fatal finding or an end-of-program halt.
#[verifier::ext_equal]
pub struct RunOutcome {
    pub entries: Seq<CycleEntry>,
    pub fatal: Option<FatalAt>,
    pub halted: Option<int>,
}

/// How many cycles the run walks: the lock-step length of the two traces,
/// less the one-cycle lookahead window in the delayed-fetch variant.
pub open spec fn spec_num_cycles(cfg: EngineConfig, gs: Seq<Cycle>, ts: Seq<Cycle>) -> int {
    let m = if gs.len() <= ts.len() {
        gs.len() as int
    } else {
        ts.len() as int
    };
    if cfg.delayed_fetch {
        if m == 0 {
            0
        } else {
            m - 1
        }
    } else {
        m
    }
}

/// The outcome of the run from cycle `i` on, starting in state `st`.
pub open spec fn run_from(
    cfg: EngineConfig,
    gs: Seq<Cycle>,
    ts: Seq<Cycle>,
    i: int,
    st: EngineState,
) -> RunOutcome
    decreases spec_num_cycles(cfg, gs, ts) - i,
{
    let n = spec_num_cycles(cfg, gs, ts);
    if i < 0 || i >= n {
        RunOutcome { entries: Seq::empty(), fatal: None, halted: None }
    } else {
        let g = gs[i];
        let t = ts[i];
        let gn = if cfg.delayed_fetch {
            gs[i + 1]
        } else {
            g
        };
        let stepped = spec_model_step(cfg, st, g, gn);
        if stepped.1 {
            RunOutcome { entries: Seq::empty(), fatal: None, halted: Some(i) }
        } else {
            let p = stepped.0.pipe;
            match cycle_fatal(cfg, p, g) {
                Some(k) => RunOutcome {
                    entries: Seq::empty(),
                    fatal: Some(FatalAt { cycle: i, kind: k }),
                    halted: None,
                },
                None => {
                    let gd = if cfg.delayed_fetch {
                        gs[i + 1].r
                    } else {
                        g.r
                    };
                    let td = if cfg.delayed_fetch {
                        ts[i + 1].r
                    } else {
                        t.r
                    };
                    let fs = cycle_fields(cfg, p, g, t, gd, td);
                    let rest = run_from(cfg, gs, ts, i + 1, stepped.0);
                    RunOutcome {
                        entries: seq![CycleEntry { idx: i, fields: fs }] + rest.entries,
                        fatal: rest.fatal,
                        halted: rest.halted,
                    }
                },
            }
        }
    }
}

/// The outcome of a whole run over two cycle sequences.
pub open spec fn spec_run(cfg: EngineConfig, gs: Seq<Cycle>, ts: Seq<Cycle>) -> RunOutcome {
    run_from(cfg, gs, ts, 0, spec_init_state())
}

/// One compared cycle's mismatches, as reported.
#[derive(PartialEq, Debug)]
pub struct CycleReport {
    pub cycle: usize,
    pub fields: Vec<Field>,
}

/// A fatal finding, as reported.
#[derive(Clone, Copy, PartialEq, Eq, Structural, Debug)]
pub struct FatalReport {
    pub cycle: usize,
    pub kind: FatalKind,
}

/// What a comparison run reports: one entry per compared cycle, in order,
/// and at most one of a fatal finding or an end-of-program halt, either of
/// which ends the run at the cycle it names.
#[derive(PartialEq, Debug)]
pub struct Report {
    pub cycles: Vec<CycleReport>,
    pub fatal: Option<FatalReport>,
    pub halted: Option<usize>,
}

/// The entries that a list of cycle reports stands for.
pub open spec fn entries_of(cs: Seq<CycleReport>) -> Seq<CycleEntry> {
    cs.map_values(|c: CycleReport| CycleEntry { idx: c.cycle as int, fields: c.fields@ })
}

/// The report `r` records exactly the mathematical outcome `o`.
pub open spec fn outcome_matches(r: Report, o: RunOutcome) -> bool {
    &&& entries_of(r.cycles@) == o.entries
    &&& match o.fatal {
        Some(fa) => r.fatal matches Some(fr) && fr.cycle as int == fa.cycle && fr.kind == fa.kind,
        None => r.fatal is None,
    }
    &&& match o.halted {
        Some(h) => r.halted matches Some(x) && x as int == h,
        None => r.halted is None,
    }
}

/// Compares two traces cycle by cycle under the reconstructed pipeline's
/// masks, with the variant that `cfg` selects.  The golden trace alone
/// drives the reconstruction, so a candidate's own bugs cannot corrupt the
/// reference model.
pub fn compare_sim(golden: &Vec<Cycle>, test: &Vec<Cycle>, cfg: EngineConfig) -> (r: Report)
    ensures
        outcome_matches(r, spec_run(cfg, golden@, test@)),
{
    let m: usize = if golden.len() <= test.len() {
        golden.len()
    } else {
        test.len()
    };
    let n: usize = if cfg.delayed_fetch {
        if m == 0 {
            0
        } else {
            m - 1
        }
    } else {
        m
    };
    let mut st = EngineState::new();
    let mut cycles: Vec<CycleReport> = Vec::new();
    let mut i: usize = 0;
    while i < n
        invariant
            0 <= i <= n,
            n as int == spec_num_cycles(cfg, golden@, test@),
            cfg.delayed_fetch ==> n as int + 1 <= golden@.len() && n as int + 1 <= test@.len()
                || n == 0,
            !cfg.delayed_fetch ==> n as int <= golden@.len() && n as int <= test@.len(),
            spec_run(cfg, golden@, test@) == (RunOutcome {
                entries: entries_of(cycles@) + run_from(cfg, golden@, test@, i as int, st).entries,
                fatal: run_from(cfg, golden@, test@, i as int, st).fatal,
                halted: run_from(cfg, golden@, test@, i as int, st).halted,
            }),
        decreases n - i,
    {
        let ghost st0 = st;
        let ghost rest0 = run_from(cfg, golden@, test@, i as int, st0);
        let g = &golden[i];
        let t = &test[i];
        let halted = if cfg.delayed_fetch {
            st.step(cfg, g, &golden[i + 1])
        } else {
            st.step(cfg, g, g)
        };
        if halted {
            proof {
                assert(rest0 =~= (RunOutcome {
                    entries: Seq::empty(),
                    fatal: None,
                    halted: Some(i as int),
                }));
                assert(entries_of(cycles@) + Seq::<CycleEntry>::empty() =~= entries_of(cycles@));
            }
            return Report { cycles, fatal: None, halted: Some(i) };
        }
        match check_cycle_fatal(cfg, &st.pipe, g) {
            Some(k) => {
                proof {
                    assert(entries_of(cycles@) + Seq::<CycleEntry>::empty() =~= entries_of(
                        cycles@,
                    ));
                }
                return Report { cycles, fatal: Some(FatalReport { cycle: i, kind: k }), halted: None };
            },
            None => {},
        }
        let fs = if cfg.delayed_fetch {
            collect_cycle_fields(cfg, &st.pipe, g, t, &golden[i + 1].r, &test[i + 1].r)
        } else {
            collect_cycle_fields(cfg, &st.pipe, g, t, &g.r, &t.r)
        };
        let ghost entry = CycleEntry { idx: i as int, fields: fs@ };
        let ghost before = cycles@;
        cycles.push(CycleReport { cycle: i, fields: fs });
        proof {
            assert(entries_of(cycles@) =~= entries_of(before) + seq![entry]);
            let rest1 = run_from(cfg, golden@, test@, i as int + 1, st);
            assert(rest0.entries == seq![entry] + rest1.entries);
            lemma_concat_assoc(entries_of(before), seq![entry], rest1.entries);
        }
        i = i + 1;
    }
    proof {
        assert(run_from(cfg, golden@, test@, i as int, st) =~= (RunOutcome {
            entries: Seq::empty(),
            fatal: None,
            halted: None,
        }));
        assert(entries_of(cycles@) + Seq::<CycleEntry>::empty() =~= entries_of(cycles@));
    }
    Report { cycles, fatal: None, halted: None }
}

/// The total number of reported mismatches in a run outcome.
pub open spec fn spec_total(entries: Seq<CycleEntry>) -> int
    decreases entries.len(),
{
    if entries.len() == 0 {
        0
    } else {
        spec_total(entries.drop_last()) + entries.last().fields.len()
    }
}

/// A total of mismatch counts is never negative.
pub proof fn lemma_spec_total_nonneg(entries: Seq<CycleEntry>)
    ensures
        spec_total(entries) >= 0,
    decreases entries.len(),
{
    if entries.len() > 0 {
        lemma_spec_total_nonneg(entries.drop_last());
    }
}

/// Sums the per-cycle mismatch counts of a report, saturating at the
/// counter's width.
pub fn total_errors(r: &Report) -> (n: u64)
    ensures
        spec_total(entries_of(r.cycles@)) <= u64::MAX ==> n as int == spec_total(
            entries_of(r.cycles@),
        ),
        spec_total(entries_of(r.cycles@)) > u64::MAX ==> n == u64::MAX,
{
    let ghost all = entries_of(r.cycles@);
    let mut n: u64 = 0;
    let mut i: usize = 0;
    while i < r.cycles.len()
        invariant
            0 <= i <= r.cycles@.len(),
            all == entries_of(r.cycles@),
            spec_total(all.take(i as int)) <= u64::MAX ==> n as int == spec_total(
                all.take(i as int),
            ),
            spec_total(all.take(i as int)) > u64::MAX ==> n == u64::MAX,
        decreases r.cycles@.len() - i,
    {
        proof {
            assert(all.take(i as int + 1).drop_last() =~= all.take(i as int));
            assert(all.take(i as int + 1).last() == all[i as int]);
            assert(all[i as int].fields == r.cycles@[i as int].fields@);
            lemma_spec_total_nonneg(all.take(i as int));
        }
        let len: usize = r.cycles[i].fields.len();
        if u64::MAX - n < len as u64 {
            n = u64::MAX;
        } else {
            n = n + len as u64;
        }
        i = i + 1;
    }
    proof {
        assert(all.take(r.cycles@.len() as int) =~= all);
    }
    n
}

/// Whether a run passed: no fatal finding and not a single mismatch.
pub fn passed(r: &Report) -> (ok: bool)
    ensures
        ok == (r.fatal is None && spec_total(entries_of(r.cycles@)) == 0),
{
    proof {
        lemma_spec_total_nonneg(entries_of(r.cycles@));
    }
    let n = total_errors(r);
    r.fatal.is_none() && n == 0
}

/// The configuration of the board comparison: the delayed-fetch pipeline,
/// compared on writeback activity alone.
pub open spec fn spec_board_config() -> EngineConfig {
    EngineConfig { delayed_fetch: true, writeback_only: true, jump_always_squashes: true }
}

/// Compares two traces on writeback activity alone, ignoring the internal
/// stages, under the delayed-fetch pipeline model.
pub fn compare_board(golden: &Vec<Cycle>, test: &Vec<Cycle>) -> (r: Report)
    ensures
        outcome_matches(r, spec_run(spec_board_config(), golden@, test@)),
{
    compare_sim(
        golden,
        test,
        EngineConfig { delayed_fetch: true, writeback_only: true, jump_always_squashes: true },
    )
}

/// Decode mask of the per-line comparison, for the instruction fetched in
/// the same cycle: a drift check of the golden program counter against the
/// last fetch, then program counter and opcode unconditionally, then the
/// classifier-gated fields.
pub open spec fn simple_decode_fields(g: DecodeRec, t: DecodeRec, last: FetchRec) -> Seq<Field> {
    let w = last.instr;
    cond(last.pc != g.pc, Field::DPcDrift) + cond(g.pc != t.pc, Field::DPc) + cond(
        g.opcode != t.opcode,
        Field::DOpcode,
    ) + cond(spec_rd(w) is Some && g.rd != t.rd, Field::DRd) + cond(
        spec_rs1(w) is Some && g.rs1 != t.rs1,
        Field::DRs1,
    ) + cond(spec_rs2(w) is Some && g.rs2 != t.rs2, Field::DRs2) + cond(
        spec_funct3(w) is Some && g.funct3 != t.funct3,
        Field::DFunct3,
    ) + cond(spec_funct7(w) is Some && g.funct7 != t.funct7, Field::DFunct7) + cond(
        spec_imm(w) is Some && g.imm != t.imm,
        Field::DImm,
    ) + cond(spec_shamt(w) is Some && g.shamt != t.shamt, Field::DShamt)
}

/// Memory mask of the per-line comparison: program counter and the
/// read-not-write flag always; address, access size and write data for
/// memory operations.
pub open spec fn simple_memory_fields(g: MemRec, t: MemRec, w: u32) -> Seq<Field> {
    cond(g.pc != t.pc, Field::MPc) + cond(
        g.read_not_write != t.read_not_write,
        Field::MReadNotWrite,
    ) + cond(spec_is_memory(w) && g.addr != t.addr, Field::MAddr) + cond(
        spec_is_memory(w) && g.access_size != t.access_size,
        Field::MAccessSize,
    ) + cond(spec_is_memory(w) && g.memory_wdata != t.memory_wdata, Field::MWriteData)
}

/// Writeback mask of the per-line comparison: a drift check of the golden
/// program counter against the last fetch, then the usual writeback mask.
pub open spec fn simple_wb_fields(g: WbRec, t: WbRec, last: FetchRec) -> Seq<Field> {
    cond(last.pc != g.pc, Field::WPcDrift) + writeback_fields(g, t, last.instr)
}

/// The per-line comparison's mismatches for one line pair, given the last
/// fetch seen.  Lines whose check cannot proceed contribute nothing; the
/// fatal finding covers them.
pub open spec fn simple_line_fields(g: ParsedLine, t: ParsedLine, last: Option<FetchRec>) -> Seq<
    Field,
> {
    match (g, t) {
        (ParsedLine::F(gf), ParsedLine::F(tf)) => fetch_fields(gf, tf),
        (ParsedLine::D(gd), ParsedLine::D(td)) => match last {
            Some(lf) => simple_decode_fields(gd, td, lf),
            None => Seq::empty(),
        },
        (ParsedLine::R(ga), ParsedLine::R(ta)) => match last {
            Some(lf) => regread_fields(ga, ta, ga, ta, lf.instr),
            None => Seq::empty(),
        },
        (ParsedLine::E(ge), ParsedLine::E(te)) => match last {
            Some(lf) => execute_fields(ge, te, lf.instr),
            None => Seq::empty(),
        },
        (ParsedLine::M(gm), ParsedLine::M(tm)) => match last {
            Some(lf) => simple_memory_fields(gm, tm, lf.instr),
            None => Seq::empty(),
        },
        (ParsedLine::W(gw), ParsedLine::W(tw)) => match last {
            Some(lf) => simple_wb_fields(gw, tw, lf),
            None => Seq::empty(),
        },
        _ => Seq::empty(),
    }
}

/// The per-line comparison's fatal finding for one line pair: mismatched
/// stage tags; a non-fetch line before any fetch; a golden execute or
/// memory program counter that drifted from the last fetch; or a golden
/// field that contradicts the classifier.
pub open spec fn simple_line_fatal(g: ParsedLine, t: ParsedLine, last: Option<FetchRec>) -> Option<
    FatalKind,
> {
    match (g, t) {
        (ParsedLine::F(_), ParsedLine::F(_)) => None,
        (ParsedLine::D(gd), ParsedLine::D(_)) => match last {
            Some(lf) => decode_pred_fatal(gd, lf.instr),
            None => Some(FatalKind::NoPriorFetch),
        },
        (ParsedLine::R(ga), ParsedLine::R(_)) => match last {
            Some(lf) => regread_fatal(ga, lf.instr),
            None => Some(FatalKind::NoPriorFetch),
        },
        (ParsedLine::E(ge), ParsedLine::E(_)) => match last {
            Some(lf) => if lf.pc != ge.pc {
                Some(FatalKind::StagePc { stage: Stage::Execute })
            } else {
                None
            },
            None => Some(FatalKind::NoPriorFetch),
        },
        (ParsedLine::M(gm), ParsedLine::M(_)) => match last {
            Some(lf) => if lf.pc != gm.pc {
                Some(FatalKind::StagePc { stage: Stage::Memory })
            } else {
                None
            },
            None => Some(FatalKind::NoPriorFetch),
        },
        (ParsedLine::W(gw), ParsedLine::W(_)) => match last {
            Some(lf) => writeback_pred_fatal(gw, lf.instr),
            None => Some(FatalKind::NoPriorFetch),
        },
        _ => Some(FatalKind::MismatchedLine),
    }
}

/// The last fetch after processing one line pair: a golden fetch line
/// replaces it; every other line keeps it.
pub open spec fn simple_next_last(g: ParsedLine, last: Option<FetchRec>) -> Option<FetchRec> {
    match g {
        ParsedLine::F(gf) => Some(gf),
        _ => last,
    }
}

/// The outcome of the per-line comparison from line `i` on.
pub open spec fn run_simple_from(
    gs: Seq<ParsedLine>,
    ts: Seq<ParsedLine>,
    i: int,
    last: Option<FetchRec>,
) -> RunOutcome
    decreases gs.len() - i,
{
    let n = if gs.len() <= ts.len() {
        gs.len() as int
    } else {
        ts.len() as int
    };
    if i < 0 || i >= n {
        RunOutcome { entries: Seq::empty(), fatal: None, halted: None }
    } else {
        let g = gs[i];
        let t = ts[i];
        match simple_line_fatal(g, t, last) {
            Some(k) => RunOutcome {
                entries: Seq::empty(),
                fatal: Some(FatalAt { cycle: i, kind: k }),
                halted: None,
            },
            None => {
                let fs = simple_line_fields(g, t, last);
                let rest = run_simple_from(gs, ts, i + 1, simple_next_last(g, last));
                RunOutcome {
                    entries: seq![CycleEntry { idx: i, fields: fs }] + rest.entries,
                    fatal: rest.fatal,
                    halted: rest.halted,
                }
            },
        }
    }
}

/// The outcome of the whole per-line comparison.
pub open spec fn spec_run_simple(gs: Seq<ParsedLine>, ts: Seq<ParsedLine>) -> RunOutcome {
    run_simple_from(gs, ts, 0, None)
}

/// Appends the per-line decode mask's mismatches.
fn push_simple_decode_fields(out: &mut Vec<Field>, g: &DecodeRec, t: &DecodeRec, last: &FetchRec)
    ensures
        final(out)@ == old(out)@ + simple_decode_fields(*g, *t, *last),
{
    let w = last.instr;
    let ghost base = out@;
    push_if(out, last.pc != g.pc, Field::DPcDrift);
    push_if(out, g.pc != t.pc, Field::DPc);
    push_if(out, g.opcode != t.opcode, Field::DOpcode);
    push_if(out, get_rd(w).is_some() && g.rd != t.rd, Field::DRd);
    push_if(out, get_rs1(w).is_some() && g.rs1 != t.rs1, Field::DRs1);
    push_if(out, get_rs2(w).is_some() && g.rs2 != t.rs2, Field::DRs2);
    push_if(out, get_funct3(w).is_some() && g.funct3 != t.funct3, Field::DFunct3);
    push_if(out, get_funct7(w).is_some() && g.funct7 != t.funct7, Field::DFunct7);
    push_if(out, get_imm(w).is_some() && g.imm != t.imm, Field::DImm);
    push_if(out, get_shamt(w).is_some() && g.shamt != t.shamt, Field::DShamt);
    proof {
        let c1 = cond(last.pc != g.pc, Field::DPcDrift);
        let c2 = cond(g.pc != t.pc, Field::DPc);
        let c3 = cond(g.opcode != t.opcode, Field::DOpcode);
        let c4 = cond(spec_rd(w) is Some && g.rd != t.rd, Field::DRd);
        let c5 = cond(spec_rs1(w) is Some && g.rs1 != t.rs1, Field::DRs1);
        let c6 = cond(spec_rs2(w) is Some && g.rs2 != t.rs2, Field::DRs2);
        let c7 = cond(spec_funct3(w) is Some && g.funct3 != t.funct3, Field::DFunct3);
        let c8 = cond(spec_funct7(w) is Some && g.funct7 != t.funct7, Field::DFunct7);
        let c9 = cond(spec_imm(w) is Some && g.imm != t.imm, Field::DImm);
        let c10 = cond(spec_shamt(w) is Some && g.shamt != t.shamt, Field::DShamt);
        lemma_concat_assoc(base, c1, c2);
        lemma_concat_assoc(base, c1 + c2, c3);
        lemma_concat_assoc(base, c1 + c2 + c3, c4);
        lemma_concat_assoc(base, c1 + c2 + c3 + c4, c5);
        lemma_concat_assoc(base, c1 + c2 + c3 + c4 + c5, c6);
        lemma_concat_assoc(base, c1 + c2 + c3 + c4 + c5 + c6, c7);
        lemma_concat_assoc(base, c1 + c2 + c3 + c4 + c5 + c6 + c7, c8);
        lemma_concat_assoc(base, c1 + c2 + c3 + c4 + c5 + c6 + c7 + c8, c9);
        lemma_concat_assoc(base, c1 + c2 + c3 + c4 + c5 + c6 + c7 + c8 + c9, c10);
        assert(out@ == base + simple_decode_fields(*g, *t, *last));
    }
}

/// Appends the per-line memory mask's mismatches.
fn push_simple_memory_fields(out: &mut Vec<Field>, g: &MemRec, t: &MemRec, w: u32)
    ensures
        final(out)@ == old(out)@ + simple_memory_fields(*g, *t, w),
{
    let ghost base = out@;
    push_if(out, g.pc != t.pc, Field::MPc);
    push_if(out, g.read_not_write != t.read_not_write, Field::MReadNotWrite);
    push_if(out, is_memory(w) && g.addr != t.addr, Field::MAddr);
    push_if(out, is_memory(w) && g.access_size != t.access_size, Field::MAccessSize);
    push_if(out, is_memory(w) && g.memory_wdata != t.memory_wdata, Field::MWriteData);
    proof {
        assert(out@ =~= base + simple_memory_fields(*g, *t, w));
    }
}

/// Checks one line pair of the per-line comparison for a fatal finding.
fn check_simple_fatal(g: &ParsedLine, t: &ParsedLine, last: &Option<FetchRec>) -> (r: Option<
    FatalKind,
>)
    ensures
        r == simple_line_fatal(*g, *t, *last),
{
    match (g, t) {
        (ParsedLine::F(_), ParsedLine::F(_)) => None,
        (ParsedLine::D(gd), ParsedLine::D(_)) => match last {
            Some(lf) => check_decode_pred_fatal(gd, lf.instr),
            None => Some(FatalKind::NoPriorFetch),
        },
        (ParsedLine::R(ga), ParsedLine::R(_)) => match last {
            Some(lf) => check_regread_fatal(ga, lf.instr),
            None => Some(FatalKind::NoPriorFetch),
        },
        (ParsedLine::E(ge), ParsedLine::E(_)) => match last {
            Some(lf) => if lf.pc != ge.pc {
                Some(FatalKind::StagePc { stage: Stage::Execute })
            } else {
                None
            },
            None => Some(FatalKind::NoPriorFetch),
        },
        (ParsedLine::M(gm), ParsedLine::M(_)) => match last {
            Some(lf) => if lf.pc != gm.pc {
                Some(FatalKind::StagePc { stage: Stage::Memory })
            } else {
                None
            },
            None => Some(FatalKind::NoPriorFetch),
        },
        (ParsedLine::W(gw), ParsedLine::W(_)) => match last {
            Some(lf) => check_writeback_pred_fatal(gw, lf.instr),
            None => Some(FatalKind::NoPriorFetch),
        },
        _ => Some(FatalKind::MismatchedLine),
    }
}

/// Collects one line pair's mismatches for the per-line comparison.
fn collect_simple_fields(g: &ParsedLine, t: &ParsedLine, last: &Option<FetchRec>) -> (fs: Vec<
    Field,
>)
    ensures
        fs@ == simple_line_fields(*g, *t, *last),
{
    let mut out: Vec<Field> = Vec::new();
    match (g, t) {
        (ParsedLine::F(gf), ParsedLine::F(tf)) => {
            push_fetch_fields(&mut out, gf, tf);
        },
        (ParsedLine::D(gd), ParsedLine::D(td)) => {
            if let Some(lf) = last {
                push_simple_decode_fields(&mut out, gd, td, lf);
            }
        },
        (ParsedLine::R(ga), ParsedLine::R(ta)) => {
            if let Some(lf) = last {
                push_regread_fields(&mut out, ga, ta, ga, ta, lf.instr);
            }
        },
        (ParsedLine::E(ge), ParsedLine::E(te)) => {
            if let Some(lf) = last {
                push_execute_fields(&mut out, ge, te, lf.instr);
            }
        },
        (ParsedLine::M(gm), ParsedLine::M(tm)) => {
            if let Some(lf) = last {
                push_simple_memory_fields(&mut out, gm, tm, lf.instr);
            }
        },
        (ParsedLine::W(gw), ParsedLine::W(tw)) => {
            if let Some(lf) = last {
                push_if(&mut out, lf.pc != gw.pc, Field::WPcDrift);
                push_writeback_fields(&mut out, gw, tw, lf.instr);
                proof {
                    lemma_concat_assoc(
                        Seq::<Field>::empty(),
                        cond(lf.pc != gw.pc, Field::WPcDrift),
                        writeback_fields(*gw, *tw, lf.instr),
                    );
                }
            }
        },
        _ => {},
    }
    proof {
        assert(out@ =~= simple_line_fields(*g, *t, *last));
    }
    out
}

/// Compares two traces line by line, without a pipeline model: every line
/// pair is checked against the instruction fetched in its own cycle.  This
/// suits a design without pipelining, where one instruction occupies the
/// whole processor each cycle.
pub fn compare_simple(golden: &Vec<ParsedLine>, test: &Vec<ParsedLine>) -> (r: Report)
    ensures
        outcome_matches(r, spec_run_simple(golden@, test@)),
{
    let n: usize = if golden.len() <= test.len() {
        golden.len()
    } else {
        test.len()
    };
    let mut last: Option<FetchRec> = None;
    let mut cycles: Vec<CycleReport> = Vec::new();
    let mut i: usize = 0;
    while i < n
        invariant
            0 <= i <= n,
            n as int == if golden@.len() <= test@.len() {
                golden@.len() as int
            } else {
                test@.len() as int
            },
            spec_run_simple(golden@, test@) == (RunOutcome {
                entries: entries_of(cycles@) + run_simple_from(
                    golden@,
                    test@,
                    i as int,
                    last,
                ).entries,
                fatal: run_simple_from(golden@, test@, i as int, last).fatal,
                halted: run_simple_from(golden@, test@, i as int, last).halted,
            }),
        decreases n - i,
    {
        let ghost rest0 = run_simple_from(golden@, test@, i as int, last);
        let g = &golden[i];
        let t = &test[i];
        match check_simple_fatal(g, t, &last) {
            Some(k) => {
                proof {
                    assert(entries_of(cycles@) + Seq::<CycleEntry>::empty() =~= entries_of(
                        cycles@,
                    ));
                }
                return Report { cycles, fatal: Some(FatalReport { cycle: i, kind: k }), halted: None };
            },
            None => {},
        }
        let fs = collect_simple_fields(g, t, &last);
        let ghost entry = CycleEntry { idx: i as int, fields: fs@ };
        let ghost before = cycles@;
        cycles.push(CycleReport { cycle: i, fields: fs });
        if let ParsedLine::F(gf) = g {
            last = Some(*gf);
        }
        proof {
            assert(entries_of(cycles@) =~= entries_of(before) + seq![entry]);
            let rest1 = run_simple_from(golden@, test@, i as int + 1, last);
            assert(rest0.entries == seq![entry] + rest1.entries);
            lemma_concat_assoc(entries_of(before), seq![entry], rest1.entries);
        }
        i = i + 1;
    }
    proof {
        assert(entries_of(cycles@) + Seq::<CycleEntry>::empty() =~= entries_of(cycles@));
    }
    Report { cycles, fatal: None, halted: None }
}

} // verus!

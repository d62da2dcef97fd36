//! Properties of the comparison engine, stated and proved once for all
//! traces: which comparisons a bubble or a fence suppresses, how stalls and
//! squashes shape the reconstructed pipeline, that a run's reports stop at
//! a halt, and that comparison is deterministic.

use vstd::prelude::*;

use crate::compare::{
    cycle_fields, decode_fields, entries_of, execute_fields, fetch_fields, memory_fields,
    outcome_matches, regread_fields, run_from, slot_fields_decode, slot_fields_execute,
    slot_fields_memory, slot_fields_writeback, spec_model_step, spec_num_cycles,
    spec_squash_phase, spec_stall, writeback_fields, EngineConfig, EngineState, Field, Report,
    RunOutcome, Stage,
};
use crate::instr::{spec_is_btype, spec_is_fence};
use crate::pipeline::{Occupant, Pipeline};
use crate::record::{Cycle, RegRec};

verus! {

/// The stage whose trace line a field belongs to.
pub open spec fn stage_of_field(f: Field) -> Stage {
    match f {
        Field::FPc | Field::FInstr => Stage::Fetch,
        Field::DPcDrift | Field::DPc | Field::DOpcode | Field::DRd | Field::DRs1 | Field::DRs2
            | Field::DFunct3 | Field::DFunct7 | Field::DImm | Field::DShamt => Stage::Decode,
        Field::RRs1Addr | Field::RRs1Data | Field::RRs2Addr | Field::RRs2Data =>
            Stage::RegisterRead,
        Field::EPc | Field::EAluResult | Field::EBranchTaken => Stage::Execute,
        Field::MPc | Field::MReadNotWrite | Field::MAddr | Field::MAccessSize
            | Field::MWriteData => Stage::Memory,
        Field::WPcDrift | Field::WPc | Field::WWe | Field::WRdAddr | Field::WRdData =>
            Stage::Writeback,
    }
}

/// Every fetch-mask field belongs to the fetch stage.
proof fn lemma_fetch_fields_stage(g: crate::record::FetchRec, t: crate::record::FetchRec)
    ensures
        forall|k: int|
            0 <= k < fetch_fields(g, t).len() ==> stage_of_field(#[trigger] fetch_fields(g, t)[k])
                == Stage::Fetch,
{
}

/// Every execute-mask field belongs to the execute stage.
proof fn lemma_execute_fields_stage(g: crate::record::ExecRec, t: crate::record::ExecRec, w: u32)
    ensures
        forall|k: int|
            0 <= k < execute_fields(g, t, w).len() ==> stage_of_field(
                #[trigger] execute_fields(g, t, w)[k],
            ) == Stage::Execute,
{
}

/// Every memory-mask field belongs to the memory stage.
proof fn lemma_memory_fields_stage(g: crate::record::MemRec, t: crate::record::MemRec, w: u32)
    ensures
        forall|k: int|
            0 <= k < memory_fields(g, t, w).len() ==> stage_of_field(
                #[trigger] memory_fields(g, t, w)[k],
            ) == Stage::Memory,
{
}

/// Every writeback-mask field belongs to the writeback stage.
proof fn lemma_writeback_fields_stage(g: crate::record::WbRec, t: crate::record::WbRec, w: u32)
    ensures
        forall|k: int|
            0 <= k < writeback_fields(g, t, w).len() ==> stage_of_field(
                #[trigger] writeback_fields(g, t, w)[k],
            ) == Stage::Writeback,
{
}

/// With a bubble in the decode slot, a cycle's comparisons touch no decode
/// or register-read field: none can contribute to the error count.
pub proof fn lemma_bubble_skips_decode_checks(
    cfg: EngineConfig,
    p: Pipeline,
    g: Cycle,
    t: Cycle,
    gd: RegRec,
    td: RegRec,
)
    requires
        p.d.spec_is_bubble(),
    ensures
        forall|k: int|
            0 <= k < cycle_fields(cfg, p, g, t, gd, td).len() ==> stage_of_field(
                #[trigger] cycle_fields(cfg, p, g, t, gd, td)[k],
            ) != Stage::Decode && stage_of_field(cycle_fields(cfg, p, g, t, gd, td)[k])
                != Stage::RegisterRead,
{
    lemma_fetch_fields_stage(g.f, t.f);
    assert(slot_fields_decode(p.d, g.d, t.d, g.r, t.r, gd, td) =~= Seq::<Field>::empty());
    if p.e.occ is Instr {
        lemma_execute_fields_stage(g.e, t.e, p.e.occ->Instr_0);
    }
    if p.m.occ is Instr {
        lemma_memory_fields_stage(g.m, t.m, p.m.occ->Instr_0);
    }
    if p.w.occ is Instr {
        lemma_writeback_fields_stage(g.w, t.w, p.w.occ->Instr_0);
    }
}

/// A fence's decode mask never compares the opcode.
proof fn lemma_fence_decode_no_opcode(
    g: crate::record::DecodeRec,
    t: crate::record::DecodeRec,
    w: u32,
)
    requires
        spec_is_fence(w),
    ensures
        forall|k: int|
            0 <= k < decode_fields(g, t, w).len() ==> #[trigger] decode_fields(g, t, w)[k]
                != Field::DOpcode,
{
}

/// With a fence in the decode slot, the opcode comparison is skipped, but
/// the program-counter comparison still happens: a differing decode program
/// counter is reported and a differing opcode is not.
pub proof fn lemma_fence_decode_mask(
    cfg: EngineConfig,
    p: Pipeline,
    g: Cycle,
    t: Cycle,
    gd: RegRec,
    td: RegRec,
    w: u32,
)
    requires
        p.d.occ == Occupant::Instr(w),
        spec_is_fence(w),
        !cfg.writeback_only,
    ensures
        !cycle_fields(cfg, p, g, t, gd, td).contains(Field::DOpcode),
        g.d.pc != t.d.pc ==> cycle_fields(cfg, p, g, t, gd, td).contains(Field::DPc),
{
    let fields = cycle_fields(cfg, p, g, t, gd, td);
    assert forall|k: int| 0 <= k < fields.len() implies #[trigger] fields[k] != Field::DOpcode by {
        lemma_fetch_fields_stage(g.f, t.f);
        lemma_fence_decode_no_opcode(g.d, t.d, w);
        lemma_regread_fields_stage(g.r, t.r, gd, td, w);
        if p.e.occ is Instr {
            lemma_execute_fields_stage(g.e, t.e, p.e.occ->Instr_0);
        }
        if p.m.occ is Instr {
            lemma_memory_fields_stage(g.m, t.m, p.m.occ->Instr_0);
        }
        if p.w.occ is Instr {
            lemma_writeback_fields_stage(g.w, t.w, p.w.occ->Instr_0);
        }
    }
    if g.d.pc != t.d.pc {
        let a = fetch_fields(g.f, t.f);
        assert(decode_fields(g.d, t.d, w)[0] == Field::DPc);
        assert(slot_fields_decode(p.d, g.d, t.d, g.r, t.r, gd, td)[0] == Field::DPc);
        assert(fields[a.len() as int] == Field::DPc);
    }
}

/// Every decode-mask field belongs to the decode stage.
#[verifier::rlimit(100)]
proof fn lemma_decode_fields_stage(g: crate::record::DecodeRec, t: crate::record::DecodeRec, w: u32)
    ensures
        forall|k: int|
            0 <= k < decode_fields(g, t, w).len() ==> stage_of_field(
                #[trigger] decode_fields(g, t, w)[k],
            ) == Stage::Decode,
{
}

/// Every register-read-mask field belongs to the register-read stage.
proof fn lemma_regread_fields_stage(ga: RegRec, ta: RegRec, gd: RegRec, td: RegRec, w: u32)
    ensures
        forall|k: int|
            0 <= k < regread_fields(ga, ta, gd, td, w).len() ==> stage_of_field(
                #[trigger] regread_fields(ga, ta, gd, td, w)[k],
            ) == Stage::RegisterRead,
{
}

/// A fence's writeback mask never compares the write-enable flag.
proof fn lemma_fence_wb_no_we(g: crate::record::WbRec, t: crate::record::WbRec, w: u32)
    requires
        spec_is_fence(w),
    ensures
        forall|k: int|
            0 <= k < writeback_fields(g, t, w).len() ==> #[trigger] writeback_fields(g, t, w)[k]
                != Field::WWe,
{
}

/// With a fence in the writeback slot, the write-enable comparison is
/// skipped, but the program-counter comparison still happens.
#[verifier::rlimit(100)]
pub proof fn lemma_fence_writeback_mask(
    cfg: EngineConfig,
    p: Pipeline,
    g: Cycle,
    t: Cycle,
    gd: RegRec,
    td: RegRec,
    w: u32,
)
    requires
        p.w.occ == Occupant::Instr(w),
        spec_is_fence(w),
    ensures
        !cycle_fields(cfg, p, g, t, gd, td).contains(Field::WWe),
        g.w.pc != t.w.pc ==> cycle_fields(cfg, p, g, t, gd, td).contains(Field::WPc),
{
    let fields = cycle_fields(cfg, p, g, t, gd, td);
    assert forall|k: int| 0 <= k < fields.len() implies #[trigger] fields[k] != Field::WWe by {
        lemma_fetch_fields_stage(g.f, t.f);
        if p.d.occ is Instr {
            lemma_decode_fields_stage(g.d, t.d, p.d.occ->Instr_0);
            lemma_regread_fields_stage(g.r, t.r, gd, td, p.d.occ->Instr_0);
        }
        if p.e.occ is Instr {
            lemma_execute_fields_stage(g.e, t.e, p.e.occ->Instr_0);
        }
        if p.m.occ is Instr {
            lemma_memory_fields_stage(g.m, t.m, p.m.occ->Instr_0);
        }
        lemma_fence_wb_no_we(g.w, t.w, w);
    }
    if g.w.pc != t.w.pc {
        assert(writeback_fields(g.w, t.w, w)[0] == Field::WPc);
        let e = slot_fields_writeback(p.w, g.w, t.w);
        assert(e[0] == Field::WPc);
        if cfg.writeback_only {
            assert(fields.contains(Field::WPc)) by {
                assert(fields[0] == Field::WPc);
            }
        } else {
            let a = fetch_fields(g.f, t.f);
            let b = slot_fields_decode(p.d, g.d, t.d, g.r, t.r, gd, td);
            let c = slot_fields_execute(p.e, g.e, t.e);
            let d = slot_fields_memory(p.m, g.m, t.m);
            let idx = a.len() + b.len() + c.len() + d.len();
            assert(fields[idx as int] == Field::WPc);
        }
    }
}

/// A taken branch — or an unconditional jump — in execute demands a squash:
/// after the model step, the squash flag is pending.
pub proof fn lemma_taken_branch_sets_squash(
    cfg: EngineConfig,
    st: EngineState,
    g: Cycle,
    gn: Cycle,
)
    requires
        !spec_model_step(cfg, st, g, gn).1,
        spec_model_step(cfg, st, g, gn).0.pipe.e.occ matches Occupant::Instr(w)
            && spec_is_btype(w),
        g.e.branch_taken,
    ensures
        spec_model_step(cfg, st, g, gn).0.squash_pending,
{
}

/// A pending squash empties fetch and decode at the start of the following
/// cycle, before that cycle's own update.
pub proof fn lemma_squash_empties_fetch_and_decode(st: EngineState)
    requires
        st.squash_pending,
    ensures
        spec_squash_phase(st).pipe.f.spec_is_bubble(),
        spec_squash_phase(st).pipe.d.spec_is_bubble(),
{
}

/// After a cycle whose execute stage holds a branch the golden trace marks
/// taken, the reconstructed fetch and decode slots of the following cycle
/// begin as bubbles.
pub proof fn lemma_squash_after_taken_branch(
    cfg: EngineConfig,
    st: EngineState,
    g: Cycle,
    gn: Cycle,
)
    requires
        !spec_model_step(cfg, st, g, gn).1,
        spec_model_step(cfg, st, g, gn).0.pipe.e.occ matches Occupant::Instr(w)
            && spec_is_btype(w),
        g.e.branch_taken,
    ensures
        spec_squash_phase(spec_model_step(cfg, st, g, gn).0).pipe.f.spec_is_bubble(),
        spec_squash_phase(spec_model_step(cfg, st, g, gn).0).pipe.d.spec_is_bubble(),
{
    lemma_taken_branch_sets_squash(cfg, st, g, gn);
    lemma_squash_empties_fetch_and_decode(spec_model_step(cfg, st, g, gn).0);
}

/// On a stalled cycle — decode occupied, and the golden trace showing the
/// same program counter in decode and execute — the model does not advance
/// fetch or decode: decode is untouched, fetch keeps its program counter
/// and any known instruction, and execute becomes a bubble.  (A fetch slot
/// whose word was still unknown may have the word filled in once the stall
/// is over; its program counter never moves.)
pub proof fn lemma_stall_holds_fetch_and_decode(
    cfg: EngineConfig,
    st: EngineState,
    g: Cycle,
    gn: Cycle,
)
    requires
        !st.squash_pending,
        spec_stall(st.pipe, g.d.pc, g.e.pc),
    ensures
        !spec_model_step(cfg, st, g, gn).1,
        spec_model_step(cfg, st, g, gn).0.pipe.d == st.pipe.d,
        spec_model_step(cfg, st, g, gn).0.pipe.f.pc == st.pipe.f.pc,
        spec_model_step(cfg, st, g, gn).0.pipe.e.spec_is_bubble(),
        !(st.pipe.f.occ is WordPending) ==> spec_model_step(cfg, st, g, gn).0.pipe.f
            == st.pipe.f,
{
}

/// A run's reports are a prefix: the compared cycles are numbered
/// consecutively from the starting cycle, and a halt or a fatal finding
/// names the cycle right after the last reported one — nothing at or past
/// it is reported.
pub proof fn lemma_run_reports_stop(
    cfg: EngineConfig,
    gs: Seq<Cycle>,
    ts: Seq<Cycle>,
    i: int,
    st: EngineState,
)
    ensures
        forall|k: int|
            0 <= k < run_from(cfg, gs, ts, i, st).entries.len() ==> (#[trigger] run_from(
                cfg,
                gs,
                ts,
                i,
                st,
            ).entries[k]).idx == i + k,
        run_from(cfg, gs, ts, i, st).halted matches Some(h) ==> h == i + run_from(
            cfg,
            gs,
            ts,
            i,
            st,
        ).entries.len(),
        run_from(cfg, gs, ts, i, st).fatal matches Some(fa) ==> fa.cycle == i + run_from(
            cfg,
            gs,
            ts,
            i,
            st,
        ).entries.len(),
    decreases spec_num_cycles(cfg, gs, ts) - i,
{
    let n = spec_num_cycles(cfg, gs, ts);
    if 0 <= i < n {
        let g = gs[i];
        let gn = if cfg.delayed_fetch {
            gs[i + 1]
        } else {
            g
        };
        let stepped = spec_model_step(cfg, st, g, gn);
        if !stepped.1 {
            lemma_run_reports_stop(cfg, gs, ts, i + 1, stepped.0);
        }
    }
}

/// Comparison is deterministic: two reports of the same run outcome agree
/// on every compared cycle, on the fatal finding, and on the halt.
pub proof fn lemma_comparison_deterministic(r1: Report, r2: Report, o: RunOutcome)
    requires
        outcome_matches(r1, o),
        outcome_matches(r2, o),
    ensures
        r1.cycles@.len() == r2.cycles@.len(),
        forall|k: int|
            0 <= k < r1.cycles@.len() ==> (#[trigger] r1.cycles@[k]).cycle == r2.cycles@[k].cycle
                && r1.cycles@[k].fields@ == r2.cycles@[k].fields@,
        r1.fatal == r2.fatal,
        r1.halted == r2.halted,
{
    assert(entries_of(r1.cycles@).len() == entries_of(r2.cycles@).len());
    assert forall|k: int| 0 <= k < r1.cycles@.len() implies (#[trigger] r1.cycles@[k]).cycle
        == r2.cycles@[k].cycle && r1.cycles@[k].fields@ == r2.cycles@[k].fields@ by {
        assert(entries_of(r1.cycles@)[k] == entries_of(r2.cycles@)[k]);
    }
    match (r1.fatal, r2.fatal) {
        (Some(a), Some(b)) => {
            assert(a.cycle == b.cycle && a.kind == b.kind);
        },
        _ => {},
    }
    match (r1.halted, r2.halted) {
        (Some(a), Some(b)) => {
            assert(a as int == b as int);
        },
        _ => {},
    }
}

} // verus!

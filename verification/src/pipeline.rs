//! The reconstructed pipeline: five stage slots forming a strict shift
//! register, advanced exactly once per processed cycle.
//!
//! Each slot holds the program counter of its occupant and the occupant
//! itself: an instruction word, a bubble, or — in the delayed-fetch variant —
//! a placeholder for a word that the golden trace cannot reveal yet.

use vstd::prelude::*;

verus! {

/// What a stage slot currently holds.
#[derive(Clone, Copy, PartialEq, Eq, Structural, Debug)]
pub enum Occupant {
    /// A real instruction with this raw 32-bit word.
    Instr(u32),
    /// Nothing: the slot was squashed or never filled.
    Bubble,
    /// An instruction whose word the golden trace has not revealed yet,
    /// because the next cycle stalls (delayed-fetch variant only).
    WordPending,
}

/// One pipeline stage slot.
#[derive(Clone, Copy, PartialEq, Eq, Structural, Debug)]
pub struct StageState {
    pub pc: u32,
    pub occ: Occupant,
}

impl StageState {
    /// The slot holds nothing.
    pub open spec fn spec_is_bubble(self) -> bool {
        self.occ is Bubble
    }

    /// The empty slot installed by squashes and by the initial pipeline.
    pub open spec fn spec_bubble() -> StageState {
        StageState { pc: 0, occ: Occupant::Bubble }
    }

    /// The slot holds nothing.
    pub fn is_bubble(&self) -> (r: bool)
        ensures
            r == self.spec_is_bubble(),
    {
        matches!(self.occ, Occupant::Bubble)
    }

    /// An empty slot.
    pub fn bubble() -> (s: StageState)
        ensures
            s == StageState::spec_bubble(),
    {
        StageState { pc: 0, occ: Occupant::Bubble }
    }
}

impl Default for StageState {
    /// An empty slot.
    fn default() -> (s: StageState)
        ensures
            s == StageState::spec_bubble(),
    {
        StageState { pc: 0, occ: Occupant::Bubble }
    }
}

/// The five stage slots, in program order: fetch, decode, execute, memory,
/// writeback.  (Register read shares the decode slot.)
#[derive(Clone, Copy, PartialEq, Eq, Structural, Debug)]
pub struct Pipeline {
    pub f: StageState,
    pub d: StageState,
    pub e: StageState,
    pub m: StageState,
    pub w: StageState,
}

/// The pipeline after a normal advance: every slot shifts down one stage
/// and `new_f` enters the fetch slot.
pub open spec fn spec_advance(p: Pipeline, new_f: StageState) -> Pipeline {
    Pipeline { w: p.m, m: p.e, e: p.d, d: p.f, f: new_f }
}

/// The pipeline after a stalled advance: memory and execute still move on,
/// execute becomes a bubble, and fetch and decode hold their instructions.
pub open spec fn spec_advance_stalled(p: Pipeline) -> Pipeline {
    Pipeline { w: p.m, m: p.e, e: StageState::spec_bubble(), d: p.d, f: p.f }
}

/// The pipeline after squashing: fetch and decode become bubbles.
pub open spec fn spec_squash_fd(p: Pipeline) -> Pipeline {
    Pipeline { f: StageState::spec_bubble(), d: StageState::spec_bubble(), ..p }
}

/// The initial pipeline: all bubbles.
pub open spec fn spec_empty_pipeline() -> Pipeline {
    Pipeline {
        f: StageState::spec_bubble(),
        d: StageState::spec_bubble(),
        e: StageState::spec_bubble(),
        m: StageState::spec_bubble(),
        w: StageState::spec_bubble(),
    }
}

impl Pipeline {
    /// An all-bubble pipeline, as a run begins.
    pub fn empty() -> (p: Pipeline)
        ensures
            p == spec_empty_pipeline(),
    {
        Pipeline {
            f: StageState::bubble(),
            d: StageState::bubble(),
            e: StageState::bubble(),
            m: StageState::bubble(),
            w: StageState::bubble(),
        }
    }

    /// Normal advance: shift every slot down one stage and install the new
    /// fetch occupant.
    pub fn dumb_advance(&mut self, f_pc: u32, f_occ: Occupant)
        ensures
            *final(self) == spec_advance(*old(self), StageState { pc: f_pc, occ: f_occ }),
    {
        self.w = self.m;
        self.m = self.e;
        self.e = self.d;
        self.d = self.f;
        self.f = StageState { pc: f_pc, occ: f_occ };
    }

    /// Stalled advance: memory and execute move on, execute becomes a
    /// bubble, and fetch and decode are left in place.
    pub fn dumb_advance_with_stalled_fetch_and_decode(&mut self)
        ensures
            *final(self) == spec_advance_stalled(*old(self)),
    {
        self.w = self.m;
        self.m = self.e;
        self.e = StageState::bubble();
    }

    /// Squash: force fetch and decode to bubbles, applied at the start of
    /// the cycle that follows a taken branch or an unconditional jump.
    pub fn squash_fetch_and_decode(&mut self)
        ensures
            *final(self) == spec_squash_fd(*old(self)),
    {
        self.f = StageState::bubble();
        self.d = StageState::bubble();
    }
}

impl Default for Pipeline {
    /// An all-bubble pipeline.
    fn default() -> (p: Pipeline)
        ensures
            p == spec_empty_pipeline(),
    {
        Pipeline::empty()
    }
}

} // verus!

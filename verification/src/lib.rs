//! Verified comparator for per-cycle pipeline execution traces.
//!
//! A processor design under test emits a plain-text trace with one line per
//! pipeline stage per clock cycle.  A reference ("golden") design emits a
//! trace of the same shape.  This crate parses both traces, reconstructs the
//! golden pipeline's occupancy (inferring stalls and squashes from program
//! counters alone), and compares the two traces field by field under a
//! per-instruction-class mask, so that architecturally meaningless fields
//! never produce false mismatches.

pub mod compare;
pub mod instr;
pub mod laws;
pub mod parse;
pub mod pipeline;
pub mod record;
pub mod render;

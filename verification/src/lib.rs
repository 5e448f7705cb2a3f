//! Core logic of a sampling profiler for Python processes: normalizing raw
//! per-sample stack snapshots into a per-thread trace model, and aggregating
//! timestamped sample records into an evented flame-graph profile document.
//!
//! Reading a live process (the stack sampler) and serializing the resulting
//! structures are the callers' concern; everything here is pure data
//! transformation, specified and verified.

pub mod speedscope;
pub mod spy;
pub mod text;

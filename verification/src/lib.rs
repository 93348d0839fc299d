//! Verified core of a command-line benchmarking harness for shell-style
//! pipelines.
//!
//! The crate holds the decisions of the harness and proves them with Verus:
//! how a textual pipeline description becomes an ordered chain of stages, in
//! which order the stages of a chain are spawned, wired, collected and reaped,
//! and how warmup rounds, measured iterations, output validation and timing
//! samples fit together. Spawning processes, reading clocks and printing are
//! left to the caller, which performs each requested step and reports back
//! what happened.

pub mod chain;
pub mod failure;
pub mod harness;
pub mod run;
pub mod stage;
pub mod text;
pub mod tokenizer;

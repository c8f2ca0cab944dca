//! Verified core of a CD rip-log checking tool.
//!
//! The library models the batch-analysis pipeline (candidate collection,
//! coordinator bookkeeping, progress arithmetic, result filtering, raw-log
//! persistence) and the interactive dashboard (state machine and pure
//! rendering). Filesystem walking, threads, the terminal and the external
//! log evaluator live outside the library and hand it plain values.

pub mod bytes;
pub mod collect;
pub mod coordinate;
pub mod dashboard;
pub mod filter;
pub mod hexenc;
pub mod persist;
pub mod progress;
pub mod render;
pub mod report;

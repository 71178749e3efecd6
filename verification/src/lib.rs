//! Judging engine for a contest-management tool.
//!
//! The library covers the logic of judging candidate solutions ("testers")
//! for competitive-programming problems: interpreting a checker's verdict,
//! turning per-case outcomes into awarded scores, aggregating subtask and
//! total scores, deciding what a resource-limit watchdog must do, resolving
//! language toolchains into concrete command lines, and rendering the result
//! report.  Process control, file handling and configuration I/O live in the
//! surrounding application, which feeds this library plain values.
pub mod checker;
pub mod conf;
pub mod config;
pub mod dmk;
pub mod dump;
pub mod expected;
pub mod generate;
pub mod judge;
pub mod limits;
pub mod random;
pub mod render;
pub mod report;
pub mod score;
pub mod status;
pub mod strutil;
pub mod template;
pub mod toolchain;
pub mod watchdog;

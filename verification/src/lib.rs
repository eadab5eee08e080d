//! Gareji Core: the local trust kernel for bounded, auditable agent execution.
//!
//! The library holds the verified rules of the kernel: capability policy,
//! bounded Runner requests and reports, Progress Checkpoint validation and the
//! idempotent checkpoint ledger, project registrations, the local Core bridge,
//! and the deterministic setup and status reports.

pub mod board;
pub mod board_adapter;
pub mod bridge;
pub mod cli;
pub mod codex;
pub mod contracts;
pub mod framing;
pub mod json;
pub mod ordered;
pub mod policy;
pub mod progress;
pub mod registry;
pub mod runner;
pub mod setup;
pub mod text;

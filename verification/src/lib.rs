//! A priority-aware round-robin scheduling engine for a simulated kernel.
//!
//! The engine owns a table of process records and a few accounting fields. A
//! driver asks it what to run next and reports back timer expiries and system
//! calls; the engine answers with the next dispatch decision. Every operation
//! is specified against a mathematical model of the engine and proved to
//! follow it.
//!
//! - [`types`]: identifiers, states, system calls, reports and decisions;
//! - [`model`]: the engine as a mathematical value and its operations as
//!   functions on that value;
//! - [`process`]: the process record as the machine holds it;
//! - [`priority_round_robin`]: the engine itself;
//! - [`admission`]: run-time tests of what the operations require;
//! - [`laws`]: what holds across operations, proved of the model.

pub mod types;
pub mod model;
pub mod process;
pub mod priority_round_robin;
pub mod admission;
pub mod laws;

pub use crate::priority_round_robin::PriorityRoundRobin;
pub use crate::process::ProcessInfo;
pub use crate::types::{Pid, ProcessState, SchedulingDecision, StopReason, Syscall, SyscallResult};

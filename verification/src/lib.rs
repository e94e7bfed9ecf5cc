//! Task-management core of a minimal single-core cooperative kernel.
//!
//! The library tracks a fixed small set of preloaded programs ("tasks"),
//! decides how execution moves between them under a strict round-robin
//! policy, and keeps per-task diagnostics: lifecycle status, per-syscall
//! invocation counts, and a first-scheduled / elapsed time field.
//!
//! The scheduler state is one explicitly-owned [`task::TaskManager`] value;
//! exclusive access is Rust's `&mut`, which makes a second live mutable view
//! impossible by construction. The register-level context switch, the
//! program loader and the monotonic clock are collaborators of the
//! surrounding kernel: the functions here take clock readings and entry
//! contexts as plain values and return the scheduling decision (which task's
//! saved context to restore, or that the system halts), and the caller's
//! trampoline performs the actual transfer of control.

use vstd::prelude::*;

pub mod syscall;
pub mod task;

verus! {

/// Capacity of the task registry: the largest number of preloaded tasks.
pub const MAX_APP_NUM: usize = 16;

/// Number of distinct syscall ids for which per-task invocation counts are kept.
pub const MAX_SYSCALL_NUM: usize = 500;

} // verus!

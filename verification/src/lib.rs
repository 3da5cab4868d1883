//! Process isolation and scheduling core for an embedded kernel.
//!
//! The crate multiplexes one microcontroller among several untrusted user
//! processes. Hardware memory protection, not language-level sandboxing,
//! contains faults: every address a process touches is checked against the
//! protection regions configured for it, and anything outside traps into the
//! fault path. The modules cover process representation and memory layout,
//! the system-call ABI and its dispatcher, grant allocation, protection-unit
//! configuration, pluggable schedulers, capability tokens, and the main-loop
//! state machine that ties them together.

pub mod caps;
pub mod image;
pub mod kernel;
pub mod mem;
pub mod mpu;
pub mod process;
pub mod ring;
pub mod sched;
pub mod syscall;

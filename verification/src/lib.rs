//! Tallow: a tiny cooperative kernel with synchronous rendezvous IPC.
//!
//! The crate holds everything the kernel decides: the IPC protocol, the task
//! table, the scheduler's choices, the register programs of the drivers and
//! the slices of the six tasks. What touches the machine (volatile registers,
//! the context switch) is left to the program that embeds it.

pub mod capsule;
pub mod demo;
pub mod gpio;
pub mod ipc;
pub mod laws;
pub mod mmio;
pub mod protocol;
pub mod sched;
pub mod slice;
pub mod slice_laws;
pub mod syscall_laws;
pub mod system;
pub mod system_laws;
pub mod task;
pub mod text;
pub mod timer;
pub mod uart;

//! The core of a small x86_64 microkernel: physical frame allocation, four-level
//! page tables, address spaces and stacks, and the thread and process model with
//! its priority scheduler.
//!
//! Every structure is an explicitly owned value. What a running kernel keeps in
//! one place per machine (the process table, the ready and sleeping lists, the
//! per-CPU current thread) is gathered in [`kernel::Kernel`], which the entry
//! points take by mutable reference.

pub mod arch;
pub mod drivers;
pub mod interrupts;
pub mod kernel;
pub mod math;
pub mod memory;
pub mod multitasking;
pub mod sync;
pub mod syscalls;

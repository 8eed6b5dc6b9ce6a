//! Process and scheduling core of a small single-CPU kernel, with the
//! parts of the system around it that have rules of their own.
//!
//! The crate holds the kernel's bookkeeping as plain owned data and states
//! in the contract of every operation how it changes that data:
//!
//! - [`proc`]: process identifiers, semaphores, stacks and heaps, the
//!   process record, the process table with its ready and wait queues, and
//!   the operations that system calls and interrupts are made of;
//! - [`memory`]: virtual addresses, the count of physical frames and the
//!   page mappings of an address space;
//! - [`interrupt`]: the timer tick and the dispatcher of system calls;
//! - [`drivers`]: the keyboard buffer and line editing;
//! - [`storage`]: partitions of a disk and the FAT16 file system;
//! - [`shell`]: path arithmetic for the command line;
//! - [`boot`]: what the boot loader works out before the kernel starts.

pub mod boot;
pub mod drivers;
pub mod interrupt;
pub mod memory;
pub mod proc;
pub mod shell;
pub mod storage;

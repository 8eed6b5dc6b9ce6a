//! What the kernel does when the processor interrupts a process: the timer
//! tick and the system calls.

pub mod clock;
pub mod syscall;

//! The saved registers of a process.
//!
//! When a process enters the kernel, its registers and the frame that the
//! processor pushed are captured as a [`ProcessContext`]. The scheduler
//! stores that context with the process and puts it back when the process
//! runs again.

use vstd::prelude::*;
use x86_64::registers::rflags::RFlags;

verus! {

/// The general-purpose registers.
#[derive(Clone, Copy, Debug, PartialEq, Eq, Structural)]
pub struct RegistersValue {
    pub r15: usize,
    pub r14: usize,
    pub r13: usize,
    pub r12: usize,
    pub r11: usize,
    pub r10: usize,
    pub r9: usize,
    pub r8: usize,
    pub rdi: usize,
    pub rsi: usize,
    pub rdx: usize,
    pub rcx: usize,
    pub rbx: usize,
    pub rax: usize,
    pub rbp: usize,
}

/// What the processor pushes when it enters the kernel, and pops when it
/// returns.
#[derive(Clone, Copy, Debug, PartialEq, Eq, Structural)]
pub struct StackFrameValue {
    pub instruction_pointer: u64,
    pub code_segment: u16,
    pub cpu_flags: u64,
    pub stack_pointer: u64,
    pub stack_segment: u16,
}

/// The segment selectors that user code runs with.
#[derive(Clone, Copy, Debug, PartialEq, Eq, Structural)]
pub struct Selectors {
    pub code_selector: u16,
    pub data_selector: u16,
}

/// The flags a new process starts with: interrupts enabled, I/O privilege
/// level 3.
pub const INITIAL_FLAGS: u64 = 0x3200;

/// The registers of a process at the moment it entered the kernel.
#[derive(Clone, Copy, Debug, PartialEq, Eq, Structural)]
pub struct ProcessContext {
    pub regs: RegistersValue,
    pub stack_frame: StackFrameValue,
}

/// Combines the x86_64 crate's `RFlags::IOPL_HIGH`, `RFlags::IOPL_LOW` and
/// `RFlags::INTERRUPT_FLAG`, which are bits 13, 12 and 9, and returns the
/// bits of the result.
#[verifier::external_body]
fn initial_rflags() -> (bits: u64)
    ensures
        bits == INITIAL_FLAGS,
{
    (RFlags::IOPL_HIGH | RFlags::IOPL_LOW | RFlags::INTERRUPT_FLAG).bits()
}

impl ProcessContext {
    /// The context with every register zero.
    pub open spec fn zero() -> ProcessContext {
        ProcessContext {
            regs: RegistersValue {
                r15: 0,
                r14: 0,
                r13: 0,
                r12: 0,
                r11: 0,
                r10: 0,
                r9: 0,
                r8: 0,
                rdi: 0,
                rsi: 0,
                rdx: 0,
                rcx: 0,
                rbx: 0,
                rax: 0,
                rbp: 0,
            },
            stack_frame: StackFrameValue {
                instruction_pointer: 0,
                code_segment: 0,
                cpu_flags: 0,
                stack_pointer: 0,
                stack_segment: 0,
            },
        }
    }

    /// This context with `value` in the return-value register.
    pub open spec fn with_rax(self, value: usize) -> ProcessContext {
        ProcessContext { regs: RegistersValue { rax: value, ..self.regs }, stack_frame: self.stack_frame }
    }

    /// This context with `offset` added to the stack pointer, modulo 2^64.
    pub open spec fn with_stack_offset(self, offset: u64) -> ProcessContext {
        ProcessContext {
            regs: self.regs,
            stack_frame: StackFrameValue {
                stack_pointer: ((self.stack_frame.stack_pointer + offset) % 0x1_0000_0000_0000_0000) as u64,
                ..self.stack_frame
            },
        }
    }

    /// This context made ready to start user code at `entry` on a stack whose
    /// pointer is `stack_top`.
    pub open spec fn started(
        self,
        entry: u64,
        stack_top: u64,
        selectors: Selectors,
    ) -> ProcessContext {
        ProcessContext {
            regs: self.regs,
            stack_frame: StackFrameValue {
                instruction_pointer: entry,
                code_segment: selectors.code_selector,
                cpu_flags: INITIAL_FLAGS,
                stack_pointer: stack_top,
                stack_segment: selectors.data_selector,
            },
        }
    }

    /// Puts `value` into the return-value register.
    pub fn set_rax(&mut self, value: usize)
        ensures
            *final(self) == old(self).with_rax(value),
    {
        self.regs.rax = value;
    }

    /// Takes over every register of `context`.
    pub fn save(&mut self, context: &ProcessContext)
        ensures
            *final(self) == *context,
    {
        *self = *context;
    }

    /// Writes every register of this context into `context`.
    pub fn restore(&self, context: &mut ProcessContext)
        ensures
            *final(context) == *self,
    {
        *context = *self;
    }

    /// Prepares the frame for the first return to user code: execution
    /// starts at `entry` with the stack pointer at `stack_top`, the given
    /// segments, interrupts enabled and I/O privilege level 3.
    pub fn init_stack_frame(&mut self, entry: u64, stack_top: u64, selectors: Selectors)
        ensures
            *final(self) == old(self).started(entry, stack_top, selectors),
    {
        self.stack_frame.stack_pointer = stack_top;
        self.stack_frame.instruction_pointer = entry;
        self.stack_frame.cpu_flags = initial_rflags();
        self.stack_frame.code_segment = selectors.code_selector;
        self.stack_frame.stack_segment = selectors.data_selector;
    }

    /// Adds `offset` to the stack pointer, wrapping around at 2^64.
    pub fn set_stack_offset(&mut self, offset: u64)
        ensures
            *final(self) == old(self).with_stack_offset(offset),
    {
        self.stack_frame.stack_pointer = self.stack_frame.stack_pointer.wrapping_add(offset);
    }
}

impl Default for ProcessContext {
    fn default() -> (context: ProcessContext)
        ensures
            context == ProcessContext::zero(),
    {
        ProcessContext {
            regs: RegistersValue {
                r15: 0,
                r14: 0,
                r13: 0,
                r12: 0,
                r11: 0,
                r10: 0,
                r9: 0,
                r8: 0,
                rdi: 0,
                rsi: 0,
                rdx: 0,
                rcx: 0,
                rbx: 0,
                rax: 0,
                rbp: 0,
            },
            stack_frame: StackFrameValue {
                instruction_pointer: 0,
                code_segment: 0,
                cpu_flags: 0,
                stack_pointer: 0,
                stack_segment: 0,
            },
        }
    }
}

} // verus!

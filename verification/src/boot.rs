//! What the boot loader works out before it hands over to the kernel.

use vstd::prelude::*;

verus! {

/// Bytes in a page.
pub const PAGE_BYTES: u64 = 0x1000;

/// The lowest address that the mapping of physical memory ends at: the
/// first four gibibytes hold the registers of the interrupt controllers.
pub const MIN_PHYS_END: u64 = 0x1_0000_0000;

/// A run of physical memory as the firmware describes it.
#[derive(Clone, Copy, Debug, PartialEq, Eq, Structural)]
pub struct MemoryDescriptor {
    /// The first address of the run.
    pub phys_start: u64,
    /// The number of pages in the run.
    pub page_count: u64,
}

impl MemoryDescriptor {
    /// The address behind the run.
    pub open spec fn end(self) -> int {
        self.phys_start + self.page_count * PAGE_BYTES
    }
}

/// What the configuration file says about the kernel.
#[derive(Clone, Copy, Debug, PartialEq, Eq, Structural)]
pub struct Config {
    /// The lowest address of the kernel's stack.
    pub kernel_stack_address: u64,
    /// The number of pages of the kernel's stack.
    pub kernel_stack_size: u64,
    /// The number of bytes of the stack to map at boot when the rest is to
    /// be mapped on demand; zero to map all of the stack at boot.
    pub kernel_stack_auto_grow: u64,
    /// The address at which physical memory is mapped.
    pub physical_memory_offset: u64,
}

/// The largest end among the first `n` runs of `entries`, and at least
/// `MIN_PHYS_END`.
pub open spec fn phys_end(entries: Seq<MemoryDescriptor>, n: nat) -> int
    decreases n,
{
    if n == 0 {
        MIN_PHYS_END as int
    } else {
        let before = phys_end(entries, (n - 1) as nat);
        if entries[n - 1].end() > before {
            entries[n - 1].end()
        } else {
            before
        }
    }
}

/// The end of physical memory never falls with more runs.
pub proof fn lemma_phys_end_grows(entries: Seq<MemoryDescriptor>, i: nat, n: nat)
    requires
        i <= n,
    ensures
        phys_end(entries, i) <= phys_end(entries, n),
    decreases n,
{
    if i < n {
        lemma_phys_end_grows(entries, i, (n - 1) as nat);
    }
}

/// The address up to which physical memory has to be mapped: the largest
/// end of a run, and at least `MIN_PHYS_END`. `None` when there is no run,
/// or an end that 64 bits do not hold.
pub fn max_phys_addr(entries: &Vec<MemoryDescriptor>) -> (end: Option<u64>)
    ensures
        end is Some <==> entries@.len() > 0 && phys_end(entries@, entries@.len()) <= u64::MAX,
        end matches Some(addr) ==> addr == phys_end(entries@, entries@.len()),
{
    if entries.len() == 0 {
        return None;
    }
    let mut max: u64 = MIN_PHYS_END;
    let mut i: usize = 0;
    while i < entries.len()
        invariant
            i <= entries.len(),
            max == phys_end(entries@, i as nat),
        decreases entries.len() - i,
    {
        let entry: MemoryDescriptor = entries[i];
        let end: u64 = match entry.page_count.checked_mul(PAGE_BYTES) {
            Some(bytes) => match entry.phys_start.checked_add(bytes) {
                Some(end) => end,
                None => {
                    proof {
                        lemma_phys_end_grows(entries@, (i + 1) as nat, entries@.len());
                    }
                    return None;
                },
            },
            None => {
                proof {
                    lemma_phys_end_grows(entries@, (i + 1) as nat, entries@.len());
                }
                return None;
            },
        };
        if end > max {
            max = end;
        }
        i = i + 1;
    }
    Some(max)
}

/// The number of pages of the kernel's stack to map at boot: all of them,
/// or as many as hold the bytes that are to be there from the start.
pub fn initial_stack_pages(config: &Config) -> (pages: u64)
    ensures
        pages == (if config.kernel_stack_auto_grow == 0 {
            config.kernel_stack_size
        } else {
            config.kernel_stack_auto_grow / 4096
        }),
{
    if config.kernel_stack_auto_grow == 0 {
        config.kernel_stack_size
    } else {
        config.kernel_stack_auto_grow / PAGE_BYTES
    }
}

/// The kernel's first stack pointer: eight bytes below the end of its
/// stack. `None` when the stack has no pages or ends beyond what 64 bits
/// hold.
pub fn stack_top(config: &Config) -> (top: Option<u64>)
    ensures
        top == (if config.kernel_stack_size > 0 && config.kernel_stack_address
            + config.kernel_stack_size * 0x1000 <= u64::MAX {
            Some((config.kernel_stack_address + config.kernel_stack_size * 0x1000 - 8) as u64)
        } else {
            None
        }),
{
    if config.kernel_stack_size == 0 {
        return None;
    }
    match config.kernel_stack_size.checked_mul(PAGE_BYTES) {
        Some(bytes) => match config.kernel_stack_address.checked_add(bytes) {
            Some(end) => Some(end - 8),
            None => None,
        },
        None => None,
    }
}

} // verus!

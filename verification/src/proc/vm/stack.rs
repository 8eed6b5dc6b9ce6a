//! The call stack of a process.
//!
//! Every stack lives in a slot of its own: a run of `STACK_MAX_PAGES` pages
//! whose first page number is a multiple of that size. A stack starts small
//! at the upper end of its slot and grows toward lower addresses, one page
//! fault at a time.

use crate::memory::address::is_canonical;
use crate::memory::address::page_number;
use crate::memory::address::page_of;
use crate::memory::address::PAGE_COUNT;
use crate::memory::address::PAGE_SIZE;
use crate::memory::frames::FrameAllocator;
use crate::memory::paging::copy_range;
use crate::memory::paging::in_range;
use crate::memory::paging::map_range;
use crate::memory::paging::range_free;
use crate::memory::paging::range_mapped;
use crate::memory::paging::range_valid;
use crate::memory::paging::ranges_disjoint;
use crate::memory::paging::unmap_range;
use crate::memory::paging::with_copy;
use crate::memory::paging::with_range;
use crate::memory::paging::without_range;
use crate::memory::paging::MapError;
use crate::memory::paging::Mappings;
use crate::memory::paging::PageRange;
use crate::memory::paging::PageTable;
use crate::memory::paging::UnmapError;
use vstd::prelude::*;

verus! {

/// One past the highest address of the first user stack.
pub const STACK_MAX: u64 = 0x4000_0000_0000;

/// Pages in a stack slot.
pub const STACK_MAX_PAGES: u64 = 0x10_0000;

/// Bytes in a stack slot.
pub const STACK_MAX_SIZE: u64 = 0x1_0000_0000;

/// Clears the bits of an address that say where in its slot it lies.
pub const STACK_START_MASK: u64 = 0xFFFF_FFFF_0000_0000;

/// Lowest address of the first user stack's slot.
pub const STACK_DEF_BOT: u64 = 0x3FFF_0000_0000;

/// Pages mapped for a new user stack.
pub const STACK_DEF_PAGE: u64 = 1;

/// Bytes mapped for a new user stack.
pub const STACK_DEF_SIZE: u64 = 0x1000;

/// Lowest address mapped for a new user stack.
pub const STACK_INIT_BOT: u64 = 0x3FFF_FFFF_F000;

/// Initial stack pointer of a new user process.
pub const STACK_INIT_TOP: u64 = 0x3FFF_FFFF_FFF8;

/// One past the highest address of the kernel stack.
pub const KSTACK_MAX: u64 = 0xFFFF_FF02_0000_0000;

/// Lowest address of the kernel stack's slot.
pub const KSTACK_DEF_BOT: u64 = 0xFFFF_FF01_0000_0000;

/// Pages of the kernel stack that are mapped at boot.
pub const KSTACK_DEF_PAGE: u64 = 4;

/// Bytes of the kernel stack that are mapped at boot.
pub const KSTACK_DEF_SIZE: u64 = 0x4000;

/// Lowest address of the kernel stack that is mapped at boot.
pub const KSTACK_INIT_BOT: u64 = 0xFFFF_FF01_FFFF_C000;

/// Initial stack pointer of the kernel.
pub const KSTACK_INIT_TOP: u64 = 0xFFFF_FF01_FFFF_FFF8;

/// The slot that holds `addr`.
pub open spec fn slot_of(addr: u64) -> u64 {
    addr / STACK_MAX_SIZE
}

/// The slot that holds page number `page`.
pub open spec fn slot_of_page(page: u64) -> u64 {
    page / STACK_MAX_PAGES
}

/// True when page number `page` starts a canonical address.
pub open spec fn page_canonical(page: u64) -> bool {
    page < 0x8_0000_0000 || 0xF_FFF8_0000_0000 <= page < PAGE_COUNT
}

/// Why a stack could not be duplicated.
#[derive(Clone, Copy, Debug, PartialEq, Eq, Structural)]
pub enum StackError {
    /// A page of the stack to copy is not mapped.
    NotMapped,
    /// No slot below the stack's own is free.
    NoSlot,
    /// Fewer frames are available than the stack has pages.
    OutOfFrames,
}

/// The first run of `usage` free pages found by starting at page `candidate`
/// and stepping down one slot at a time; `None` once a step leaves the
/// canonical half that the search began in.
pub open spec fn first_free_slot(m: Mappings, candidate: int, usage: nat) -> Option<u64>
    decreases
            (if candidate < 0 {
                0
            } else {
                candidate + 1
            }),
{
    if candidate < 0 || candidate >= PAGE_COUNT || !range_valid(candidate as u64, usage) {
        None
    } else if range_free(m, candidate as u64, usage) {
        Some(candidate as u64)
    } else {
        first_free_slot(m, candidate - STACK_MAX_PAGES, usage)
    }
}

/// How `Stack::fork` ends for `parent` in the mappings `m` with `available`
/// frames left, when the search starts `stack_offset_count` slots down: the
/// first page of the copy, or the reason why there is none.
pub open spec fn fork_outcome(
    parent: Stack,
    m: Mappings,
    available: int,
    stack_offset_count: u64,
) -> Result<
    u64,
    StackError,
> {
    let slot = first_free_slot(
        m,
        parent.range().start - stack_offset_count * STACK_MAX_PAGES,
        parent.usage(),
    );
    if !range_mapped(m, parent.range().start, parent.usage()) {
        Err(StackError::NotMapped)
    } else if slot is None {
        Err(StackError::NoSlot)
    } else if parent.usage() > available {
        Err(StackError::OutOfFrames)
    } else {
        Ok(slot->0)
    }
}

/// True when `child` is the copy that `Stack::fork` makes of `parent`: as
/// many pages, in a run that was free in `before` and shares no page with
/// the parent's, and in `after` those pages are mapped for user access and
/// hold the parent's bytes while every other page is as it was.
pub open spec fn is_fork_of(
    child: Stack,
    parent: Stack,
    before: Mappings,
    after: Mappings,
) -> bool {
    &&& child.usage() == parent.usage()
    &&& child.range().end == child.range().start + parent.usage()
    &&& child.range().start <= parent.range().start
    &&& range_free(before, child.range().start, parent.usage())
    &&& ranges_disjoint(parent.range().start, child.range().start, parent.usage())
    &&& after == with_copy(
        with_range(before, child.range().start, parent.usage(), true),
        parent.range().start,
        child.range().start,
        parent.usage(),
    )
}

/// The stack of one process: the pages it has mapped.
#[derive(Debug)]
pub struct Stack {
    range: PageRange,
    usage: u64,
}

impl Stack {
    /// The mapped pages: from the lowest one up to, not including, `end`.
    pub closed spec fn range(&self) -> PageRange {
        self.range
    }

    /// The number of mapped pages.
    pub closed spec fn usage(&self) -> nat {
        self.usage as nat
    }

    /// The stack's pages lie within one slot, at canonical addresses, and
    /// `usage` counts them.
    pub open spec fn wf(&self) -> bool {
        &&& self.range().start <= self.range().end
        &&& self.usage() == self.range().end - self.range().start
        &&& page_canonical(self.range().start)
        &&& self.range().end <= (slot_of_page(self.range().start) + 1) * STACK_MAX_PAGES
    }

    /// True when `addr` lies in the slot of this stack.
    pub open spec fn on_stack(&self, addr: u64) -> bool {
        slot_of(addr) == slot_of_page(self.range().start)
    }

    /// The pages between the one that holds `addr` and the stack's lowest
    /// page: how many a fault at `addr` asks for.
    pub open spec fn missing(&self, addr: u64) -> nat {
        if page_of(addr) < self.range().start {
            (self.range().start - page_of(addr)) as nat
        } else {
            0
        }
    }

    /// The stack that `empty` returns.
    pub closed spec fn empty_spec() -> Stack {
        Stack { range: PageRange { start: 0x3_FFFF_FFFF, end: 0x3_FFFF_FFFF }, usage: 0 }
    }

    /// The stack that `kstack` returns.
    pub closed spec fn kstack_spec() -> Stack {
        Stack { range: PageRange { start: 0xF_FFFF_F01F_FFFC, end: 0xF_FFFF_F020_0000 }, usage: 4 }
    }

    /// A stack of `size` pages whose highest page is `top`.
    pub fn new(top: u64, size: u64) -> (stack: Stack)
        requires
            1 <= size <= top + 1,
            top < PAGE_COUNT,
        ensures
            stack.range() == (PageRange { start: (top - size + 1) as u64, end: (top + 1) as u64 }),
            stack.usage() == size,
    {
        Stack { range: PageRange { start: top + 1 - size, end: top + 1 }, usage: size }
    }

    /// A stack without pages, placed at the top of the first user slot.
    pub fn empty() -> (stack: Stack)
        ensures
            stack.wf(),
            stack.usage() == 0,
            stack.range() == (PageRange { start: 0x3_FFFF_FFFF, end: 0x3_FFFF_FFFF }),
            stack == Stack::empty_spec(),
    {
        Stack { range: PageRange { start: 0x3_FFFF_FFFF, end: 0x3_FFFF_FFFF }, usage: 0 }
    }

    /// The kernel's stack: the pages that the boot loader mapped below
    /// `KSTACK_MAX`.
    pub fn kstack() -> (stack: Stack)
        ensures
            stack.wf(),
            stack.usage() == KSTACK_DEF_PAGE,
            stack.range() == (PageRange { start: 0xF_FFFF_F01F_FFFC, end: 0xF_FFFF_F020_0000 }),
            stack == Stack::kstack_spec(),
    {
        Stack {
            range: PageRange { start: 0xF_FFFF_F01F_FFFC, end: 0xF_FFFF_F020_0000 },
            usage: KSTACK_DEF_PAGE,
        }
    }

    /// Maps the first page of a new user stack, just below `STACK_MAX`, and
    /// makes it this stack's only page. The error is that of `map_range`;
    /// with one, nothing changes.
    pub fn init(&mut self, mapper: &mut PageTable, alloc: &mut FrameAllocator) -> (result: Result<
        (),
        MapError,
    >)
        requires
            old(self).usage() == 0,
            old(mapper).wf(),
            old(alloc).wf(),
        ensures
            final(mapper).wf(),
            final(alloc).wf(),
            final(alloc).total() == old(alloc).total(),
            result is Ok <==> !old(mapper)@.contains_key(0x3_FFFF_FFFF) && old(alloc).available()
                >= 1,
            result is Ok ==> {
                &&& final(self).wf()
                &&& final(self).range() == (PageRange { start: 0x3_FFFF_FFFF, end: 0x4_0000_0000 })
                &&& final(self).usage() == STACK_DEF_PAGE
                &&& final(mapper)@ == old(mapper)@.insert(
                    0x3_FFFF_FFFF,
                    crate::memory::paging::fresh_page(true),
                )
                &&& final(alloc).in_use() == old(alloc).in_use() + 1
            },
            result matches Err(e) ==> {
                &&& *final(self) == *old(self)
                &&& final(mapper)@ == old(mapper)@
                &&& *final(alloc) == *old(alloc)
                &&& e == (if old(mapper)@.contains_key(0x3_FFFF_FFFF) {
                    MapError::PageAlreadyMapped
                } else {
                    MapError::FrameAllocationFailed
                })
            },
    {
        assert(page_of(STACK_INIT_BOT) == 0x3_FFFF_FFFF);
        assert(range_free(mapper@, 0x3_FFFF_FFFF, 1) <==> !mapper@.contains_key(0x3_FFFF_FFFF)) by {
            assert(in_range(0x3_FFFF_FFFF, 1, 0x3_FFFF_FFFF));
        }
        match map_range(STACK_INIT_BOT, STACK_DEF_PAGE, mapper, alloc, true) {
            Ok(range) => {
                self.range = range;
                self.usage = STACK_DEF_PAGE;
                assert(mapper@ =~= old(mapper)@.insert(
                    0x3_FFFF_FFFF,
                    crate::memory::paging::fresh_page(true),
                ));
                Ok(())
            },
            Err(e) => Err(e),
        }
    }

    /// Answers a page fault at `addr`.
    ///
    /// A fault outside the stack's slot is refused. For one inside it, the
    /// pages from the faulting page up to the stack's lowest page are mapped,
    /// zero-filled, for user access only if `user_access` is set, and the
    /// stack then begins at the faulting page. A fault at or above the lowest
    /// page asks for no page and changes nothing. The result is true when the
    /// fault was in the slot and the pages could be mapped; otherwise nothing
    /// changes.
    pub fn handle_page_fault(
        &mut self,
        addr: u64,
        mapper: &mut PageTable,
        alloc: &mut FrameAllocator,
        user_access: bool,
    ) -> (handled: bool)
        requires
            old(self).wf(),
            old(mapper).wf(),
            old(alloc).wf(),
        ensures
            final(self).wf(),
            final(mapper).wf(),
            final(alloc).wf(),
            final(alloc).total() == old(alloc).total(),
            handled == (old(self).on_stack(addr) && range_free(
                old(mapper)@,
                page_of(addr),
                old(self).missing(addr),
            ) && old(self).missing(addr) <= old(alloc).available()),
            handled ==> {
                &&& final(self).range().end == old(self).range().end
                &&& final(self).range().start == old(self).range().start - old(self).missing(addr)
                &&& final(mapper)@ == with_range(
                    old(mapper)@,
                    page_of(addr),
                    old(self).missing(addr),
                    user_access,
                )
                &&& final(alloc).in_use() == old(alloc).in_use() + old(self).missing(addr)
            },
            !handled ==> {
                &&& *final(self) == *old(self)
                &&& final(mapper)@ == old(mapper)@
                &&& *final(alloc) == *old(alloc)
            },
    {
        if !self.is_on_stack(addr) {
            return false;
        }
        match self.grow_stack(addr, mapper, alloc, user_access) {
            Ok(()) => true,
            Err(_) => false,
        }
    }

    /// True when `addr` lies in the slot of this stack: the address and the
    /// stack's lowest address agree once the bits below the slot size are
    /// masked away.
    fn is_on_stack(&self, addr: u64) -> (on: bool)
        requires
            self.wf(),
        ensures
            on == self.on_stack(addr),
            on ==> is_canonical(addr),
    {
        let cur_stack_bot: u64 = self.range.start * PAGE_SIZE;
        assert((addr & 0xFFFF_FFFF_0000_0000) == (cur_stack_bot & 0xFFFF_FFFF_0000_0000) <==> addr
            / 0x1_0000_0000 == cur_stack_bot / 0x1_0000_0000) by (bit_vector);
        (addr & STACK_START_MASK) == (cur_stack_bot & STACK_START_MASK)
    }

    /// Maps what a fault at `addr` asks for and moves the stack's lowest
    /// page down to the faulting page.
    fn grow_stack(
        &mut self,
        addr: u64,
        mapper: &mut PageTable,
        alloc: &mut FrameAllocator,
        user_access: bool,
    ) -> (result: Result<(), MapError>)
        requires
            old(self).wf(),
            old(self).on_stack(addr),
            is_canonical(addr),
            old(mapper).wf(),
            old(alloc).wf(),
        ensures
            final(self).wf(),
            final(mapper).wf(),
            final(alloc).wf(),
            final(alloc).total() == old(alloc).total(),
            result is Ok <==> range_free(old(mapper)@, page_of(addr), old(self).missing(addr))
                && old(self).missing(addr) <= old(alloc).available(),
            result is Ok ==> {
                &&& final(self).range().end == old(self).range().end
                &&& final(self).range().start == old(self).range().start - old(self).missing(addr)
                &&& final(mapper)@ == with_range(
                    old(mapper)@,
                    page_of(addr),
                    old(self).missing(addr),
                    user_access,
                )
                &&& final(alloc).in_use() == old(alloc).in_use() + old(self).missing(addr)
            },
            result is Err ==> {
                &&& *final(self) == *old(self)
                &&& final(mapper)@ == old(mapper)@
                &&& *final(alloc) == *old(alloc)
            },
    {
        let fault_page: u64 = match page_number(addr) {
            Some(page) => page,
            None => {
                return Err(MapError::InvalidRange);
            },
        };
        let current_bottom_page: u64 = self.range.start;
        let count: u64 = if fault_page < current_bottom_page {
            current_bottom_page - fault_page
        } else {
            0
        };
        assert(range_valid(fault_page, count as nat));
        match map_range(addr, count, mapper, alloc, user_access) {
            Ok(_) => {
                if count > 0 {
                    self.range.start = fault_page;
                }
                self.usage = self.usage + count;
                Ok(())
            },
            Err(e) => Err(e),
        }
    }

    /// Copies `size` pages of bytes from the run at page `cur_page` to the
    /// run at page `dest_page`; see `copy_range`.
    fn clone_range(
        &self,
        cur_page: u64,
        dest_page: u64,
        size: u64,
        mapper: &mut PageTable,
    ) -> (done: bool)
        requires
            old(mapper).wf(),
        ensures
            final(mapper).wf(),
            done == (range_mapped(old(mapper)@, cur_page, size as nat) && range_mapped(
                old(mapper)@,
                dest_page,
                size as nat,
            ) && ranges_disjoint(cur_page, dest_page, size as nat)),
            done ==> final(mapper)@ == with_copy(old(mapper)@, cur_page, dest_page, size as nat),
            !done ==> final(mapper)@ == old(mapper)@,
    {
        copy_range(mapper, cur_page, dest_page, size)
    }

    /// Duplicates the stack for a forked process, in the same page table.
    ///
    /// The copy goes to the first free run of pages found by starting
    /// `stack_offset_count` slots below this stack and stepping down one slot
    /// at a time, at the same place within the slot. The pages are mapped for
    /// user access and receive the bytes of this stack, page by page.
    ///
    /// Fails, changing nothing, with `NotMapped` when a page of this stack is
    /// not mapped, else with `NoSlot` when the search finds no free run, else
    /// with `OutOfFrames` when the frames do not suffice.
    pub fn fork(
        &self,
        mapper: &mut PageTable,
        alloc: &mut FrameAllocator,
        stack_offset_count: u64,
    ) -> (result: Result<Stack, StackError>)
        requires
            self.wf(),
            old(mapper).wf(),
            old(alloc).wf(),
        ensures
            final(mapper).wf(),
            final(alloc).wf(),
            final(alloc).total() == old(alloc).total(),
            fork_outcome(*self, old(mapper)@, old(alloc).available(), stack_offset_count) == (match result {
                Ok(child) => Ok(child.range().start),
                Err(e) => Err(e),
            }),
            result matches Ok(child) ==> {
                &&& child.wf()
                &&& is_fork_of(child, *self, old(mapper)@, final(mapper)@)
                &&& final(alloc).in_use() == old(alloc).in_use() + self.usage()
            },
            result is Err ==> {
                &&& final(mapper)@ == old(mapper)@
                &&& *final(alloc) == *old(alloc)
            },
    {
        let start: u64 = self.range.start;
        let usage: u64 = self.usage;
        let ghost first: int = start - stack_offset_count * STACK_MAX_PAGES;
        if !mapper.is_range_mapped(start, usage) {
            return Err(StackError::NotMapped);
        }
        if stack_offset_count > start / STACK_MAX_PAGES {
            assert(first < 0);
            return Err(StackError::NoSlot);
        }
        let mut new_stack_page: u64 = start - stack_offset_count * STACK_MAX_PAGES;
        let ghost mut steps: int = stack_offset_count as int;
        loop
            invariant_except_break
                mapper@ == old(mapper)@,
                *alloc == *old(alloc),
            invariant
                self.wf(),
                start == self.range().start,
                usage == self.usage(),
                mapper.wf(),
                alloc.wf(),
                alloc.total() == old(alloc).total(),
                old(mapper).wf(),
                range_mapped(old(mapper)@, start, usage as nat),
                0 <= steps,
                new_stack_page == start - steps * STACK_MAX_PAGES,
                first == start - stack_offset_count * STACK_MAX_PAGES,
                first_free_slot(old(mapper)@, first, usage as nat) == first_free_slot(
                    old(mapper)@,
                    new_stack_page as int,
                    usage as nat,
                ),
            ensures
                first_free_slot(old(mapper)@, first, usage as nat) == Some(new_stack_page),
                range_free(old(mapper)@, new_stack_page, usage as nat),
                range_valid(new_stack_page, usage as nat),
                usage <= old(alloc).available(),
                mapper@ == with_range(old(mapper)@, new_stack_page, usage as nat, true),
                alloc.in_use() == old(alloc).in_use() + usage,
            decreases new_stack_page,
        {
            assert(page_of((new_stack_page * PAGE_SIZE) as u64) == new_stack_page);
            match map_range(new_stack_page * PAGE_SIZE, usage, mapper, alloc, true) {
                Ok(_) => {
                    assert(first_free_slot(old(mapper)@, new_stack_page as int, usage as nat)
                        == Some(new_stack_page));
                    break ;
                },
                Err(MapError::PageAlreadyMapped) => {
                    assert(first_free_slot(old(mapper)@, new_stack_page as int, usage as nat)
                        == first_free_slot(
                        old(mapper)@,
                        new_stack_page - STACK_MAX_PAGES,
                        usage as nat,
                    ));
                    if new_stack_page < STACK_MAX_PAGES {
                        assert(first_free_slot(
                            old(mapper)@,
                            new_stack_page - STACK_MAX_PAGES,
                            usage as nat,
                        ) is None);
                        return Err(StackError::NoSlot);
                    }
                    new_stack_page = new_stack_page - STACK_MAX_PAGES;
                    proof {
                        steps = steps + 1;
                    }
                },
                Err(MapError::InvalidRange) => {
                    assert(first_free_slot(old(mapper)@, new_stack_page as int, usage as nat)
                        is None);
                    return Err(StackError::NoSlot);
                },
                Err(MapError::FrameAllocationFailed) => {
                    assert(first_free_slot(old(mapper)@, new_stack_page as int, usage as nat)
                        == Some(new_stack_page));
                    return Err(StackError::OutOfFrames);
                },
            }
        }
        proof {
            let mapped = mapper@;
            assert(range_mapped(mapped, new_stack_page, usage as nat)) by {
                assert forall|p: u64| in_range(new_stack_page, usage as nat, p) implies mapped.contains_key(
                    p,
                ) by {}
            }
            assert(range_mapped(mapped, start, usage as nat)) by {
                assert forall|p: u64| in_range(start, usage as nat, p) implies mapped.contains_key(
                    p,
                ) by {
                    assert(old(mapper)@.contains_key(p));
                }
            }
            if usage > 0 && new_stack_page == start {
                assert(in_range(start, usage as nat, start));
                assert(old(mapper)@.contains_key(start));
                assert(!old(mapper)@.contains_key(start));
            }
            assert(ranges_disjoint(start, new_stack_page, usage as nat));
        }
        let copied: bool = self.clone_range(start, new_stack_page, usage, mapper);
        assert(copied);
        Ok(Stack { range: PageRange { start: new_stack_page, end: new_stack_page + usage }, usage })
    }

    /// Unmaps every page of the stack and gives the frames back. An empty
    /// stack is left alone. Fails with `PageNotMapped`, changing nothing,
    /// when one of the stack's pages is not mapped.
    pub fn clean_up(&mut self, mapper: &mut PageTable, dealloc: &mut FrameAllocator) -> (result:
        Result<(), UnmapError>)
        requires
            old(self).wf(),
            old(mapper).wf(),
            old(dealloc).wf(),
        ensures
            final(self).wf(),
            final(mapper).wf(),
            final(dealloc).wf(),
            final(dealloc).total() == old(dealloc).total(),
            result is Ok <==> range_mapped(
                old(mapper)@,
                old(self).range().start,
                old(self).usage(),
            ),
            result is Ok ==> {
                &&& final(self).usage() == 0
                &&& final(self).range().start == old(self).range().start
                &&& final(self).range().end == old(self).range().start
                &&& final(mapper)@ == without_range(
                    old(mapper)@,
                    old(self).range().start,
                    old(self).usage(),
                )
                &&& final(dealloc).in_use() == if old(self).usage() <= old(dealloc).in_use() {
                    old(dealloc).in_use() - old(self).usage()
                } else {
                    0
                }
            },
            result matches Err(e) ==> {
                &&& e == UnmapError::PageNotMapped
                &&& *final(self) == *old(self)
                &&& final(mapper)@ == old(mapper)@
                &&& *final(dealloc) == *old(dealloc)
            },
    {
        if self.usage == 0 {
            assert(mapper@ =~= without_range(mapper@, self.range().start, 0));
            return Ok(());
        }
        match unmap_range(self.range, mapper, dealloc, true) {
            Ok(()) => {
                self.range.end = self.range.start;
                self.usage = 0;
                Ok(())
            },
            Err(e) => Err(e),
        }
    }

    /// The lowest mapped page and the page after the highest.
    pub fn pages(&self) -> (range: PageRange)
        ensures
            range == self.range(),
    {
        self.range
    }

    /// Bytes of memory that the stack has mapped.
    pub fn memory_usage(&self) -> (bytes: u64)
        requires
            self.wf(),
        ensures
            bytes == self.usage() * PAGE_SIZE,
    {
        self.usage * PAGE_SIZE
    }

    /// The distance from `parent_stack`'s lowest address to this stack's,
    /// modulo 2^64: adding it to an address in the parent's stack, with
    /// wrap-around, gives the matching address in this one.
    pub fn offset(&self, parent_stack: &Stack) -> (offset: u64)
        requires
            self.wf(),
            parent_stack.wf(),
        ensures
            offset as int == if self.range().start >= parent_stack.range().start {
                (self.range().start - parent_stack.range().start) * PAGE_SIZE
            } else {
                (self.range().start - parent_stack.range().start) * PAGE_SIZE
                    + 0x1_0000_0000_0000_0000
            },
    {
        let parent_stack_bot: u64 = parent_stack.range.start * PAGE_SIZE;
        let cur_stack_bot: u64 = self.range.start * PAGE_SIZE;
        cur_stack_bot.wrapping_sub(parent_stack_bot)
    }
}

/// A stack grows within its slot: every page that a fault in the slot asks
/// for lies below the stack's lowest page and in the same slot, so that no
/// page of another slot is ever mapped by a fault.
pub proof fn lemma_growth_stays_in_slot(stack: Stack, addr: u64, page: u64)
    requires
        stack.wf(),
        stack.on_stack(addr),
        in_range(page_of(addr), stack.missing(addr), page),
    ensures
        page < stack.range().start,
        slot_of_page(page) == slot_of_page(stack.range().start),
        page_canonical(page),
{
}

/// After a fork the child's stack holds what the parent's held: page for
/// page the same bytes, mapped for user access, while the parent's pages
/// are as they were.
pub proof fn lemma_fork_copies_stack(
    child: Stack,
    parent: Stack,
    before: Mappings,
    after: Mappings,
    i: nat,
)
    requires
        is_fork_of(child, parent, before, after),
        range_mapped(before, parent.range().start, parent.usage()),
        parent.range().start + parent.usage() <= u64::MAX,
        i < parent.usage(),
    ensures
        after.contains_key((child.range().start + i) as u64),
        after[(child.range().start + i) as u64].user_accessible,
        after[(child.range().start + i) as u64].bytes == before[(parent.range().start
            + i) as u64].bytes,
        after.contains_key((parent.range().start + i) as u64),
        after[(parent.range().start + i) as u64] == before[(parent.range().start + i) as u64],
{
    let c = (child.range().start + i) as u64;
    let p = (parent.range().start + i) as u64;
    assert(in_range(child.range().start, parent.usage(), c));
    assert(in_range(parent.range().start, parent.usage(), p));
    assert(before.contains_key(p));
    assert(!in_range(child.range().start, parent.usage(), p));
}

/// The two stacks of a fork are independent: whatever is stored in a page
/// of one of them, every page of the other holds what it held.
pub proof fn lemma_fork_stacks_independent(
    child: Stack,
    parent: Stack,
    before: Mappings,
    after: Mappings,
    memory: Mappings,
    written: u64,
    stored: crate::memory::paging::PageView,
    other: u64,
)
    requires
        is_fork_of(child, parent, before, after),
        (in_range(child.range().start, parent.usage(), written) && in_range(
            parent.range().start,
            parent.usage(),
            other,
        )) || (in_range(parent.range().start, parent.usage(), written) && in_range(
            child.range().start,
            parent.usage(),
            other,
        )),
        memory.contains_key(other),
    ensures
        written != other,
        memory.insert(written, stored)[other] == memory[other],
{
}

} // verus!

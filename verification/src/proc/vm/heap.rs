//! The heap of a process: a run of bytes that starts at a fixed base and
//! ends where the last `brk` put it.
//!
//! The pages that hold a byte of the heap are mapped, and no page above
//! them is: `brk` maps or unmaps the difference whenever the end moves
//! across a page boundary.

use crate::memory::address::PAGE_SIZE;
use crate::memory::frames::FrameAllocator;
use crate::memory::paging::map_range;
use crate::memory::paging::range_free;
use crate::memory::paging::range_mapped;
use crate::memory::paging::unmap_range;
use crate::memory::paging::with_range;
use crate::memory::paging::without_range;
use crate::memory::paging::Mappings;
use crate::memory::paging::PageRange;
use crate::memory::paging::PageTable;
use crate::memory::paging::UnmapError;
use vstd::prelude::*;

verus! {

/// Lowest address of every heap.
pub const HEAP_START: u64 = 0x2000_0000_0000;

/// The most pages a heap can have.
pub const HEAP_PAGES: u64 = 0x10_0000;

/// The most bytes a heap can have.
pub const HEAP_SIZE: u64 = 0x1_0000_0000;

/// Highest address of a heap at which eight bytes can be stored.
pub const HEAP_END: u64 = 0x2000_FFFF_FFF8;

/// Page number of `HEAP_START`.
pub const HEAP_START_PAGE: u64 = 0x2_0000_0000;

/// The number of pages that hold a byte of a heap that ends at `end`.
pub open spec fn heap_pages(end: u64) -> nat {
    ((end - HEAP_START + 4095) / 4096) as nat
}

/// True when `end` is a place where a heap may end.
pub open spec fn end_in_bounds(end: u64) -> bool {
    HEAP_START <= end <= HEAP_START + HEAP_SIZE
}

/// True when a heap that ends at `end` can be moved to end at `new_end`:
/// the new end is in bounds, and the pages to add are free and can get
/// frames, or the pages to drop are mapped.
pub open spec fn brk_succeeds(end: u64, m: Mappings, available: int, new_end: u64) -> bool {
    &&& end_in_bounds(new_end)
    &&& heap_pages(new_end) > heap_pages(end) ==> {
        &&& range_free(
            m,
            (HEAP_START_PAGE + heap_pages(end)) as u64,
            (heap_pages(new_end) - heap_pages(end)) as nat,
        )
        &&& heap_pages(new_end) - heap_pages(end) <= available
    }
    &&& heap_pages(new_end) < heap_pages(end) ==> range_mapped(
        m,
        (HEAP_START_PAGE + heap_pages(new_end)) as u64,
        (heap_pages(end) - heap_pages(new_end)) as nat,
    )
}

/// What `brk` returns: the current end for a query, the new end for a move
/// that succeeds, nothing for one that does not.
pub open spec fn brk_result(end: u64, m: Mappings, available: int, new_end: Option<u64>) -> Option<
    u64,
> {
    match new_end {
        None => Some(end),
        Some(e) => if brk_succeeds(end, m, available, e) {
            Some(e)
        } else {
            None
        },
    }
}

/// Where the heap ends after `brk`.
pub open spec fn brk_end(end: u64, m: Mappings, available: int, new_end: Option<u64>) -> u64 {
    match brk_result(end, m, available, new_end) {
        Some(e) => e,
        None => end,
    }
}

/// The mappings after `brk`.
pub open spec fn brk_mappings(
    end: u64,
    m: Mappings,
    available: int,
    new_end: Option<u64>,
) -> Mappings {
    let target = brk_end(end, m, available, new_end);
    if heap_pages(target) > heap_pages(end) {
        with_range(
            m,
            (HEAP_START_PAGE + heap_pages(end)) as u64,
            (heap_pages(target) - heap_pages(end)) as nat,
            true,
        )
    } else if heap_pages(target) < heap_pages(end) {
        without_range(
            m,
            (HEAP_START_PAGE + heap_pages(target)) as u64,
            (heap_pages(end) - heap_pages(target)) as nat,
        )
    } else {
        m
    }
}

/// The frames in use after `brk`, given those in use before.
pub open spec fn brk_in_use(
    end: u64,
    m: Mappings,
    available: int,
    in_use: int,
    new_end: Option<u64>,
) -> int {
    let target = brk_end(end, m, available, new_end);
    let after = in_use + heap_pages(target) - heap_pages(end);
    if after < 0 {
        0
    } else {
        after
    }
}

/// The heap of a group of processes.
#[derive(Debug)]
pub struct Heap {
    base: u64,
    end: u64,
}

impl Heap {
    /// The lowest address of the heap.
    pub closed spec fn base(&self) -> u64 {
        self.base
    }

    /// One past the highest address of the heap.
    pub closed spec fn end(&self) -> u64 {
        self.end
    }

    /// The heap starts at `HEAP_START` and ends within bounds.
    pub open spec fn wf(&self) -> bool {
        &&& self.base() == HEAP_START
        &&& end_in_bounds(self.end())
    }

    /// A heap without bytes.
    pub fn empty() -> (heap: Heap)
        ensures
            heap.wf(),
            heap.end() == HEAP_START,
    {
        Heap { base: HEAP_START, end: HEAP_START }
    }

    /// The lowest address of the heap.
    pub fn start(&self) -> (base: u64)
        ensures
            base == self.base(),
    {
        self.base
    }

    /// Bytes in the heap.
    pub fn memory_usage(&self) -> (bytes: u64)
        requires
            self.wf(),
        ensures
            bytes == self.end() - self.base(),
    {
        self.end - self.base
    }

    /// The number of pages that hold a byte of a heap that ends at `end`.
    fn pages_for(end: u64) -> (pages: u64)
        requires
            end_in_bounds(end),
        ensures
            pages == heap_pages(end),
            pages <= HEAP_PAGES,
    {
        (end - HEAP_START + (PAGE_SIZE - 1)) / PAGE_SIZE
    }

    /// Queries or moves the end of the heap.
    ///
    /// Without a new end, returns the current one and changes nothing. With
    /// one, checks that it lies between the base and `HEAP_SIZE` bytes above
    /// it, maps the pages that the heap gains, zero-filled and for user
    /// access, or unmaps those that it loses, moves the end and returns it.
    /// Returns `None`, changing nothing, when the new end is out of bounds or
    /// the pages cannot be mapped or unmapped.
    pub fn brk(
        &mut self,
        new_end: Option<u64>,
        mapper: &mut PageTable,
        alloc: &mut FrameAllocator,
    ) -> (result: Option<u64>)
        requires
            old(self).wf(),
            old(mapper).wf(),
            old(alloc).wf(),
        ensures
            final(self).wf(),
            final(mapper).wf(),
            final(alloc).wf(),
            final(alloc).total() == old(alloc).total(),
            final(self).base() == old(self).base(),
            result == brk_result(old(self).end(), old(mapper)@, old(alloc).available(), new_end),
            final(self).end() == brk_end(
                old(self).end(),
                old(mapper)@,
                old(alloc).available(),
                new_end,
            ),
            final(mapper)@ == brk_mappings(
                old(self).end(),
                old(mapper)@,
                old(alloc).available(),
                new_end,
            ),
            final(alloc).in_use() == brk_in_use(
                old(self).end(),
                old(mapper)@,
                old(alloc).available(),
                old(alloc).in_use(),
                new_end,
            ),
    {
        let new_end: u64 = match new_end {
            None => {
                return Some(self.end);
            },
            Some(new_end) => new_end,
        };
        if new_end < self.base || new_end > self.base + HEAP_SIZE {
            return None;
        }
        let cur_pages: u64 = Heap::pages_for(self.end);
        let new_pages: u64 = Heap::pages_for(new_end);
        if new_pages > cur_pages {
            let first: u64 = HEAP_START_PAGE + cur_pages;
            assert(crate::memory::address::page_of((first * PAGE_SIZE) as u64) == first);
            if map_range(first * PAGE_SIZE, new_pages - cur_pages, mapper, alloc, true).is_err() {
                return None;
            }
        } else if new_pages < cur_pages {
            let range = PageRange { start: HEAP_START_PAGE + new_pages, end: HEAP_START_PAGE + cur_pages };
            if unmap_range(range, mapper, alloc, true).is_err() {
                return None;
            }
        }
        self.end = new_end;
        Some(new_end)
    }

    /// Unmaps every page of the heap, gives the frames back and moves the
    /// end down to the base. An empty heap is left alone. Fails with
    /// `PageNotMapped`, changing nothing, when a page of the heap is not
    /// mapped.
    pub fn clean_up(&mut self, mapper: &mut PageTable, dealloc: &mut FrameAllocator) -> (result:
        Result<(), UnmapError>)
        requires
            old(self).wf(),
            old(mapper).wf(),
            old(dealloc).wf(),
        ensures
            final(self).wf(),
            final(mapper).wf(),
            final(dealloc).wf(),
            final(dealloc).total() == old(dealloc).total(),
            result is Ok <==> range_mapped(
                old(mapper)@,
                HEAP_START_PAGE,
                heap_pages(old(self).end()),
            ),
            result is Ok ==> {
                &&& final(self).end() == HEAP_START
                &&& final(mapper)@ == without_range(
                    old(mapper)@,
                    HEAP_START_PAGE,
                    heap_pages(old(self).end()),
                )
                &&& final(dealloc).in_use() == if heap_pages(old(self).end()) <= old(
                    dealloc,
                ).in_use() {
                    old(dealloc).in_use() - heap_pages(old(self).end())
                } else {
                    0
                }
            },
            result matches Err(e) ==> {
                &&& e == UnmapError::PageNotMapped
                &&& *final(self) == *old(self)
                &&& final(mapper)@ == old(mapper)@
                &&& *final(dealloc) == *old(dealloc)
            },
    {
        if self.memory_usage() == 0 {
            assert(mapper@ =~= without_range(mapper@, HEAP_START_PAGE, 0));
            return Ok(());
        }
        let pages: u64 = Heap::pages_for(self.end);
        let range = PageRange { start: HEAP_START_PAGE, end: HEAP_START_PAGE + pages };
        match unmap_range(range, mapper, dealloc, true) {
            Ok(()) => {
                self.end = self.base;
                Ok(())
            },
            Err(e) => Err(e),
        }
    }
}

/// A query right after a move that succeeded returns the end that the move
/// asked for, wherever in bounds that is.
pub proof fn lemma_brk_then_query(end: u64, m: Mappings, available: int, in_use: int, x: u64)
    requires
        end_in_bounds(end),
        brk_succeeds(end, m, available, x),
    ensures
        end_in_bounds(x),
        brk_result(end, m, available, Some(x)) == Some(x),
        brk_result(
            brk_end(end, m, available, Some(x)),
            brk_mappings(end, m, available, Some(x)),
            available - (brk_in_use(end, m, available, in_use, Some(x)) - in_use),
            None,
        ) == Some(x),
{
}

/// A move to an end out of bounds is refused and leaves the heap as it was:
/// the same end, the same mappings, the same frames in use.
pub proof fn lemma_brk_out_of_bounds(end: u64, m: Mappings, available: int, in_use: int, x: u64)
    requires
        end_in_bounds(end),
        0 <= in_use,
        !end_in_bounds(x),
    ensures
        brk_result(end, m, available, Some(x)) is None,
        brk_end(end, m, available, Some(x)) == end,
        brk_mappings(end, m, available, Some(x)) == m,
        brk_in_use(end, m, available, in_use, Some(x)) == in_use,
{
}

/// A move within bounds succeeds whenever the table holds exactly the pages
/// of the heap in the heap's part of the address space and the frames
/// suffice.
pub proof fn lemma_brk_in_bounds_succeeds(end: u64, m: Mappings, available: int, x: u64)
    requires
        end_in_bounds(end),
        end_in_bounds(x),
        forall|p: u64|
            HEAP_START_PAGE <= p < HEAP_START_PAGE + HEAP_PAGES ==> (#[trigger] m.contains_key(p)
                <==> p < HEAP_START_PAGE + heap_pages(end)),
        heap_pages(x) - heap_pages(end) <= available,
    ensures
        brk_succeeds(end, m, available, x),
{
}

} // verus!

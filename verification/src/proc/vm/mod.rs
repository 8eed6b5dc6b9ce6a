//! Per-process virtual memory: the stack, the heap and what ties them to a
//! page table.

pub mod heap;
pub mod stack;

use self::stack::Stack;
use self::stack::StackError;
use self::stack::STACK_INIT_TOP;
use self::stack::STACK_MAX_PAGES;
use self::stack::STACK_MAX_SIZE;
use super::pid::ProcessId;
use crate::memory::address::page_of;
use crate::memory::frames::FrameAllocator;
use crate::memory::paging::fresh_page;
use crate::memory::paging::map_range;
use crate::memory::paging::range_free;
use crate::memory::paging::range_mapped;
use crate::memory::paging::range_valid;
use crate::memory::paging::with_range;
use crate::memory::paging::without_range;
use crate::memory::paging::MapError;
use crate::memory::paging::Mappings;
use crate::memory::paging::PageTable;
use crate::memory::paging::UnmapError;
use vstd::prelude::*;

verus! {

/// A part of an executable that has to be in memory when it runs: `pages`
/// pages, beginning with the page that holds the address `start`.
#[derive(Clone, Copy, Debug, PartialEq, Eq, Structural)]
pub struct Segment {
    pub start: u64,
    pub pages: u64,
}

/// An executable as the loader sees it: where execution begins and which
/// parts of the address space the program occupies.
#[derive(Debug)]
pub struct ExecutableImage {
    pub entry_point: u64,
    pub segments: Vec<Segment>,
}

impl Segment {
    /// The segment that holds the `mem_size` bytes from the address `start`
    /// on: as many pages as those bytes touch. `None` when the bytes reach
    /// beyond the end of the address space.
    pub fn spanning(start: u64, mem_size: u64) -> (segment: Option<Segment>)
        ensures
            segment is Some <==> start + mem_size <= u64::MAX,
            segment matches Some(seg) ==> seg.start == start && seg.pages == (start + mem_size
                + 4095) / 4096 - start / 4096,
    {
        match start.checked_add(mem_size) {
            Some(end) => {
                let first_page: u64 = start / 4096;
                let last_page: u64 = if end % 4096 == 0 {
                    end / 4096
                } else {
                    end / 4096 + 1
                };
                Some(Segment { start, pages: last_page - first_page })
            },
            None => None,
        }
    }
}

impl ExecutableImage {
    /// A second copy of this image: the same entry point and segments.
    pub fn duplicate(&self) -> (image: ExecutableImage)
        ensures
            image.entry_point == self.entry_point,
            image.segments@ == self.segments@,
    {
        let mut segments: Vec<Segment> = Vec::new();
        let mut i: usize = 0;
        while i < self.segments.len()
            invariant
                i <= self.segments.len(),
                segments@ == self.segments@.take(i as int),
            decreases self.segments.len() - i,
        {
            segments.push(self.segments[i]);
            i = i + 1;
            assert(segments@ =~= self.segments@.take(i as int));
        }
        assert(self.segments@.take(self.segments.len() as int) =~= self.segments@);
        ExecutableImage { entry_point: self.entry_point, segments }
    }
}

/// What a loader has reached after the first `n` segments of `segs`.
pub struct LoadState {
    /// The mappings so far.
    pub mappings: Mappings,
    /// The frames still available.
    pub available: int,
    /// False once a segment could not be mapped; nothing is mapped after
    /// that.
    pub ok: bool,
}

/// True when `seg` can be mapped in `m` with `available` frames left.
pub open spec fn segment_fits(m: Mappings, available: int, seg: Segment) -> bool {
    &&& range_valid(page_of(seg.start), seg.pages as nat)
    &&& range_free(m, page_of(seg.start), seg.pages as nat)
    &&& seg.pages <= available
}

/// Maps the first `n` segments of `segs` one after another, for user access,
/// and stops at the first that does not fit.
pub open spec fn load_segments(m: Mappings, available: int, segs: Seq<Segment>, n: nat) -> LoadState
    decreases n,
{
    if n == 0 {
        LoadState { mappings: m, available, ok: true }
    } else {
        let before = load_segments(m, available, segs, (n - 1) as nat);
        let seg = segs[n - 1];
        if before.ok && segment_fits(before.mappings, before.available, seg) {
            LoadState {
                mappings: with_range(before.mappings, page_of(seg.start), seg.pages as nat, true),
                available: before.available - seg.pages,
                ok: true,
            }
        } else {
            LoadState { mappings: before.mappings, available: before.available, ok: false }
        }
    }
}

/// Loading never ends with more frames available than it began with.
pub proof fn lemma_load_takes_frames(m: Mappings, available: int, segs: Seq<Segment>, n: nat)
    ensures
        load_segments(m, available, segs, n).available <= available,
    decreases n,
{
    if n > 0 {
        lemma_load_takes_frames(m, available, segs, (n - 1) as nat);
    }
}

/// Once a segment has failed, later segments change nothing.
pub proof fn lemma_load_stops(m: Mappings, available: int, segs: Seq<Segment>, i: nat, n: nat)
    requires
        i <= n,
        !load_segments(m, available, segs, i).ok,
    ensures
        load_segments(m, available, segs, n) == load_segments(m, available, segs, i),
    decreases n,
{
    if i < n {
        lemma_load_stops(m, available, segs, i, (n - 1) as nat);
    }
}

/// The memory of one process: its own stack, and the number of the group
/// whose page table and heap it shares.
#[derive(Debug)]
pub struct ProcessVm {
    /// The group whose page table holds this process's mappings.
    pub group: usize,
    /// The process's stack.
    pub stack: Stack,
}

impl ProcessVm {
    /// The memory of a process of group `group`, with an empty stack.
    pub fn new(group: usize) -> (vm: ProcessVm)
        ensures
            vm.group == group,
            vm.stack.wf(),
            vm.stack.usage() == 0,
            vm.stack == Stack::empty_spec(),
    {
        ProcessVm { group, stack: Stack::empty() }
    }

    /// The same memory with the kernel's stack in place of its own.
    pub fn init_kernel_vm(self) -> (vm: ProcessVm)
        ensures
            vm.group == self.group,
            vm.stack == Stack::kstack_spec(),
            vm.stack.wf(),
    {
        let mut vm = self;
        vm.stack = Stack::kstack();
        vm
    }

    /// Bytes of memory that belong to this process alone.
    pub fn memory_usage(&self) -> (bytes: u64)
        requires
            self.stack.wf(),
        ensures
            bytes == self.stack.usage() * 4096,
    {
        self.stack.memory_usage()
    }

    /// Gives the process the stack slot that goes with its identifier: the
    /// slot `pid - 1` slots below the first user slot. Maps the slot's
    /// highest page for user access and returns the initial stack pointer,
    /// eight bytes below the slot's end.
    ///
    /// Returns `None`, changing nothing, when the identifier is zero or so
    /// large that the slot would lie below address zero, or when the page
    /// cannot be mapped.
    pub fn init_proc_stack(
        &mut self,
        pid: ProcessId,
        mapper: &mut PageTable,
        alloc: &mut FrameAllocator,
    ) -> (top: Option<u64>)
        requires
            old(mapper).wf(),
            old(alloc).wf(),
        ensures
            final(mapper).wf(),
            final(alloc).wf(),
            final(alloc).total() == old(alloc).total(),
            final(self).group == old(self).group,
            top is Some <==> {
                &&& 1 <= pid.0 <= 0x4000
                &&& !old(mapper)@.contains_key((0x3_FFFF_FFFF - (pid.0 - 1) * STACK_MAX_PAGES) as u64)
                &&& old(alloc).available() >= 1
            },
            top matches Some(t) ==> {
                &&& t == STACK_INIT_TOP - (pid.0 - 1) * STACK_MAX_SIZE
                &&& final(self).stack.wf()
                &&& final(self).stack.usage() == 1
                &&& final(self).stack.range().start == page_of(t)
                &&& final(self).stack.range().end == page_of(t) + 1
                &&& final(mapper)@ == old(mapper)@.insert(page_of(t), fresh_page(true))
                &&& final(alloc).in_use() == old(alloc).in_use() + 1
            },
            top is None ==> {
                &&& *final(self) == *old(self)
                &&& final(mapper)@ == old(mapper)@
                &&& *final(alloc) == *old(alloc)
            },
    {
        if pid.0 == 0 || pid.0 > 0x4000 {
            return None;
        }
        let slots_down: u64 = (pid.0 - 1) as u64;
        let stack_top: u64 = STACK_INIT_TOP - slots_down * STACK_MAX_SIZE;
        let stack_bottom: u64 = stack::STACK_INIT_BOT - slots_down * STACK_MAX_SIZE;
        let ghost page: u64 = (0x3_FFFF_FFFF - slots_down * STACK_MAX_PAGES) as u64;
        assert(page_of(stack_bottom) == page);
        assert(page_of(stack_top) == page);
        assert(range_free(mapper@, page, 1) <==> !mapper@.contains_key(page)) by {
            assert(crate::memory::paging::in_range(page, 1, page));
        }
        match map_range(stack_bottom, stack::STACK_DEF_PAGE, mapper, alloc, true) {
            Ok(_) => {
                self.stack = Stack::new(stack_top / crate::memory::address::PAGE_SIZE, stack::STACK_DEF_PAGE);
                assert(mapper@ =~= old(mapper)@.insert(page, fresh_page(true)));
                Some(stack_top)
            },
            Err(_) => None,
        }
    }

    /// Answers a page fault at `addr` by letting the stack grow; see
    /// [`Stack::handle_page_fault`].
    pub fn handle_page_fault(
        &mut self,
        addr: u64,
        mapper: &mut PageTable,
        alloc: &mut FrameAllocator,
        user_access: bool,
    ) -> (handled: bool)
        requires
            old(self).stack.wf(),
            old(mapper).wf(),
            old(alloc).wf(),
        ensures
            final(self).stack.wf(),
            final(mapper).wf(),
            final(alloc).wf(),
            final(alloc).total() == old(alloc).total(),
            final(self).group == old(self).group,
            handled == (old(self).stack.on_stack(addr) && range_free(
                old(mapper)@,
                page_of(addr),
                old(self).stack.missing(addr),
            ) && old(self).stack.missing(addr) <= old(alloc).available()),
            handled ==> {
                &&& final(self).stack.range().end == old(self).stack.range().end
                &&& final(self).stack.range().start == old(self).stack.range().start - old(
                    self,
                ).stack.missing(addr)
                &&& final(mapper)@ == with_range(
                    old(mapper)@,
                    page_of(addr),
                    old(self).stack.missing(addr),
                    user_access,
                )
                &&& final(alloc).in_use() == old(alloc).in_use() + old(self).stack.missing(addr)
            },
            !handled ==> {
                &&& *final(self) == *old(self)
                &&& final(mapper)@ == old(mapper)@
                &&& *final(alloc) == *old(alloc)
            },
    {
        self.stack.handle_page_fault(addr, mapper, alloc, user_access)
    }

    /// Maps the segments of `image` one after another, for user access, and
    /// stops at the first that does not fit: what was mapped before it stays
    /// mapped. The error says why that segment did not fit.
    pub fn load_elf(
        &mut self,
        image: &ExecutableImage,
        mapper: &mut PageTable,
        alloc: &mut FrameAllocator,
    ) -> (result: Result<(), MapError>)
        requires
            old(mapper).wf(),
            old(alloc).wf(),
        ensures
            final(mapper).wf(),
            final(alloc).wf(),
            final(alloc).total() == old(alloc).total(),
            *final(self) == *old(self),
            result is Ok <==> load_segments(
                old(mapper)@,
                old(alloc).available(),
                image.segments@,
                image.segments@.len(),
            ).ok,
            final(mapper)@ == load_segments(
                old(mapper)@,
                old(alloc).available(),
                image.segments@,
                image.segments@.len(),
            ).mappings,
            final(alloc).available() == load_segments(
                old(mapper)@,
                old(alloc).available(),
                image.segments@,
                image.segments@.len(),
            ).available,
    {
        let ghost m0 = mapper@;
        let ghost a0 = alloc.available();
        let ghost segs = image.segments@;
        let n: usize = image.segments.len();
        let mut i: usize = 0;
        while i < n
            invariant
                i <= n,
                n == segs.len(),
                segs == image.segments@,
                m0 == old(mapper)@,
                a0 == old(alloc).available(),
                mapper.wf(),
                alloc.wf(),
                alloc.total() == old(alloc).total(),
                load_segments(m0, a0, segs, i as nat).ok,
                mapper@ == load_segments(m0, a0, segs, i as nat).mappings,
                alloc.available() == load_segments(m0, a0, segs, i as nat).available,
            decreases n - i,
        {
            let seg: Segment = image.segments[i];
            match map_range(seg.start, seg.pages, mapper, alloc, true) {
                Ok(_) => {
                    assert(load_segments(m0, a0, segs, (i + 1) as nat).ok);
                },
                Err(e) => {
                    proof {
                        assert(!load_segments(m0, a0, segs, (i + 1) as nat).ok);
                        lemma_load_stops(m0, a0, segs, (i + 1) as nat, n as nat);
                    }
                    return Err(e);
                },
            }
            i = i + 1;
        }
        Ok(())
    }

    /// The memory of a forked process: the same group, and a copy of this
    /// stack in a slot of its own; see [`Stack::fork`].
    pub fn fork(
        &self,
        mapper: &mut PageTable,
        alloc: &mut FrameAllocator,
        stack_offset_count: u64,
    ) -> (result: Result<ProcessVm, StackError>)
        requires
            self.stack.wf(),
            old(mapper).wf(),
            old(alloc).wf(),
        ensures
            final(mapper).wf(),
            final(alloc).wf(),
            final(alloc).total() == old(alloc).total(),
            stack::fork_outcome(
                self.stack,
                old(mapper)@,
                old(alloc).available(),
                stack_offset_count,
            ) == (match result {
                Ok(vm) => Ok(vm.stack.range().start),
                Err(e) => Err(e),
            }),
            result matches Ok(vm) ==> {
                &&& vm.group == self.group
                &&& vm.stack.wf()
                &&& stack::is_fork_of(
                    vm.stack,
                    self.stack,
                    old(mapper)@,
                    final(mapper)@,
                )
                &&& final(alloc).in_use() == old(alloc).in_use() + self.stack.usage()
            },
            result is Err ==> {
                &&& final(mapper)@ == old(mapper)@
                &&& *final(alloc) == *old(alloc)
            },
    {
        match self.stack.fork(mapper, alloc, stack_offset_count) {
            Ok(stack) => Ok(ProcessVm { group: self.group, stack }),
            Err(e) => Err(e),
        }
    }

    /// Gives back the memory that belongs to this process alone: its stack.
    /// See [`Stack::clean_up`].
    pub fn clean_up(&mut self, mapper: &mut PageTable, dealloc: &mut FrameAllocator) -> (result:
        Result<(), UnmapError>)
        requires
            old(self).stack.wf(),
            old(mapper).wf(),
            old(dealloc).wf(),
        ensures
            final(self).stack.wf(),
            final(mapper).wf(),
            final(dealloc).wf(),
            final(dealloc).total() == old(dealloc).total(),
            final(self).group == old(self).group,
            result is Ok <==> range_mapped(
                old(mapper)@,
                old(self).stack.range().start,
                old(self).stack.usage(),
            ),
            result is Ok ==> {
                &&& final(self).stack.usage() == 0
                &&& final(mapper)@ == without_range(
                    old(mapper)@,
                    old(self).stack.range().start,
                    old(self).stack.usage(),
                )
                &&& final(dealloc).in_use() == if old(self).stack.usage() <= old(
                    dealloc,
                ).in_use() {
                    old(dealloc).in_use() - old(self).stack.usage()
                } else {
                    0
                }
            },
            result is Err ==> {
                &&& *final(self) == *old(self)
                &&& final(mapper)@ == old(mapper)@
                &&& *final(dealloc) == *old(dealloc)
            },
    {
        self.stack.clean_up(mapper, dealloc)
    }
}

} // verus!

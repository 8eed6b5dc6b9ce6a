//! What the processes of one fork family have in common.
//!
//! A process that is spawned from an executable founds a group. Every
//! process forked from a member joins the group. The members share one page
//! table, one heap, one table of descriptors and one set of semaphores; each
//! has a stack of its own in the shared page table.

use super::data::ProcessData;
use super::vm::heap::brk_end;
use super::vm::heap::brk_in_use;
use super::vm::heap::brk_mappings;
use super::vm::heap::brk_result;
use super::vm::heap::Heap;
use super::pid::PidAllocator;
use super::process::released;
use super::process::released_in_use;
use super::process::Process;
use super::process::ProcessInner;
use super::vm::heap::heap_pages;
use super::vm::heap::HEAP_START;
use super::vm::heap::HEAP_START_PAGE;
use super::vm::stack;
use super::vm::stack::StackError;
use super::vm::ProcessVm;
use crate::memory::address::page_of;
use crate::memory::frames::FrameAllocator;
use crate::memory::paging::range_free;
use crate::memory::paging::range_mapped;
use crate::memory::paging::with_range;
use crate::memory::paging::without_range;
use crate::memory::paging::Mappings;
use crate::memory::paging::PageTable;
use vstd::prelude::*;

verus! {

/// True when the heap that ends at `end` can be given back: all its pages
/// are mapped in `m`.
pub open spec fn heap_mapped(m: Mappings, end: u64) -> bool {
    range_mapped(m, HEAP_START_PAGE, heap_pages(end))
}

/// The frames in use after `count` of them were given back.
pub open spec fn frames_after_release(in_use: int, count: nat) -> int {
    if count <= in_use {
        in_use - count
    } else {
        0
    }
}

/// True when `after` is the group `before` once a member with the memory
/// `vm` has died:
/// - the member's stack is unmapped, if all of it was mapped;
/// - the group has one member less;
/// - when that was the last member, the heap is unmapped and empty, if all
///   of it was mapped, and the descriptors, semaphores and environment
///   are released: only the standard descriptors are left;
/// - otherwise descriptors, semaphores and environment are as they were.
pub open spec fn is_after_exit(
    after: ProcessGroup,
    before: ProcessGroup,
    vm: Option<ProcessVm>,
) -> bool {
    let m = released(vm, before.page_table@);
    let last = before.members <= 1;
    let end = before.heap.end();
    &&& after.wf()
    &&& !last ==> after.data == before.data
    &&& last ==> after.data.resources@ == super::data::standard_descriptors()
    &&& last ==> after.data.semaphores@ == Map::<u32, super::sync::SemState>::empty()
    &&& last ==> super::data::env_of(after.data.env@) == Seq::<(Seq<char>, Seq<char>)>::empty()
    &&& after.members == (if before.members > 0 {
        before.members - 1
    } else {
        0
    })
    &&& after.page_table@ == (if last && heap_mapped(m, end) {
        without_range(m, HEAP_START_PAGE, heap_pages(end))
    } else {
        m
    })
    &&& after.heap.end() == (if last && heap_mapped(m, end) {
        HEAP_START
    } else {
        end
    })
}

/// The frames in use after a member with the memory `vm` has died in the
/// group `before`, given those in use before.
pub open spec fn in_use_after_exit(
    before: ProcessGroup,
    vm: Option<ProcessVm>,
    in_use: int,
) -> int {
    let m = released(vm, before.page_table@);
    let stack_freed = released_in_use(vm, before.page_table@, in_use);
    if before.members <= 1 && heap_mapped(m, before.heap.end()) {
        frames_after_release(stack_freed, heap_pages(before.heap.end()))
    } else {
        stack_freed
    }
}

/// The shared part of a fork family.
pub struct ProcessGroup {
    /// The mappings of the family's address space.
    pub page_table: PageTable,
    /// The family's heap.
    pub heap: Heap,
    /// The family's descriptors and semaphores.
    pub data: ProcessData,
    /// How many live processes belong to the group.
    pub members: usize,
}

impl ProcessGroup {
    /// The page table and the heap are well-formed.
    pub open spec fn wf(&self) -> bool {
        &&& self.page_table.wf()
        &&& self.heap.wf()
    }

    /// True when this group and `other` look the same: the same mappings,
    /// heap, descriptors, semaphores and number of members.
    pub open spec fn same_as(&self, other: &ProcessGroup) -> bool {
        &&& self.page_table@ == other.page_table@
        &&& self.heap == other.heap
        &&& self.data.resources@ == other.data.resources@
        &&& self.data.semaphores@ == other.data.semaphores@
        &&& super::data::env_of(self.data.env@) == super::data::env_of(other.data.env@)
        &&& self.members == other.members
    }

    /// A group without members, with the given page table and data and an
    /// empty heap.
    pub fn new(page_table: PageTable, data: ProcessData) -> (group: ProcessGroup)
        requires
            page_table.wf(),
        ensures
            group.wf(),
            group.page_table == page_table,
            group.data == data,
            group.heap.end() == super::vm::heap::HEAP_START,
            group.members == 0,
    {
        ProcessGroup { page_table, heap: Heap::empty(), data, members: 0 }
    }

    /// Queries or moves the end of the group's heap; see [`Heap::brk`].
    pub fn brk(&mut self, new_end: Option<u64>, alloc: &mut FrameAllocator) -> (result: Option<u64>)
        requires
            old(self).wf(),
            old(alloc).wf(),
        ensures
            final(self).wf(),
            final(alloc).wf(),
            final(alloc).total() == old(alloc).total(),
            final(self).data == old(self).data,
            final(self).members == old(self).members,
            result == brk_result(
                old(self).heap.end(),
                old(self).page_table@,
                old(alloc).available(),
                new_end,
            ),
            final(self).heap.end() == brk_end(
                old(self).heap.end(),
                old(self).page_table@,
                old(alloc).available(),
                new_end,
            ),
            final(self).page_table@ == brk_mappings(
                old(self).heap.end(),
                old(self).page_table@,
                old(alloc).available(),
                new_end,
            ),
            final(alloc).in_use() == brk_in_use(
                old(self).heap.end(),
                old(self).page_table@,
                old(alloc).available(),
                old(alloc).in_use(),
                new_end,
            ),
    {
        self.heap.brk(new_end, &mut self.page_table, alloc)
    }

    /// Ends `process`, a member of this group, with exit code `ret`.
    ///
    /// The process becomes `Dead` and its stack is given back, see
    /// [`Process::kill`]. The group loses a member; when it was the last,
    /// the heap is given back, too.
    pub fn kill_member(&mut self, process: &mut Process, ret: isize, alloc: &mut FrameAllocator)
        requires
            old(self).wf(),
            old(process).wf(),
            old(alloc).wf(),
        ensures
            final(process).wf(),
            final(alloc).wf(),
            final(alloc).total() == old(alloc).total(),
            *final(process) == (Process {
                pid: old(process).pid,
                inner: old(process).inner.killed(ret),
            }),
            is_after_exit(*final(self), *old(self), old(process).inner.proc_vm),
            final(alloc).in_use() == in_use_after_exit(
                *old(self),
                old(process).inner.proc_vm,
                old(alloc).in_use(),
            ),
    {
        process.kill(ret, &mut self.page_table, alloc);
        if self.members > 0 {
            self.members = self.members - 1;
        }
        if self.members == 0 {
            let _ = self.heap.clean_up(&mut self.page_table, alloc);
            self.data = ProcessData::new();
        }
    }

    /// Forks `process`, a member of this group; see [`Process::fork`]. The
    /// child joins the group.
    pub fn fork_member(
        &mut self,
        process: &mut Process,
        pids: &mut PidAllocator,
        alloc: &mut FrameAllocator,
    ) -> (result: Result<Process, StackError>)
        requires
            old(self).wf(),
            old(self).members < old(pids).next(),
            old(process).wf(),
            old(process).inner.proc_vm is Some,
            old(process).inner.children.len() < old(pids).next(),
            old(pids).next() < 0x1_0000,
            old(alloc).wf(),
        ensures
            final(self).wf(),
            final(self).members < final(pids).next(),
            final(process).wf(),
            final(alloc).wf(),
            final(alloc).total() == old(alloc).total(),
            final(process).inner.children.len() < final(pids).next(),
            final(self).heap == old(self).heap,
            final(self).data == old(self).data,
            stack::fork_outcome(
                old(process).inner.proc_vm->0.stack,
                old(self).page_table@,
                old(alloc).available(),
                (old(process).inner.children.len() + 1) as u64,
            ) == (match result {
                Ok(child) => Ok(child.inner.proc_vm->0.stack.range().start),
                Err(e) => Err(e),
            }),
            result matches Ok(child) ==> {
                &&& is_child_of(child, *old(process))
                &&& child.pid.0 as nat == old(pids).next()
                &&& final(pids).next() == old(pids).next() + 1
                &&& is_after_fork(*final(process), *old(process), child.pid)
                &&& stack::is_fork_of(
                    child.inner.proc_vm->0.stack,
                    old(process).inner.proc_vm->0.stack,
                    old(self).page_table@,
                    final(self).page_table@,
                )
                &&& final(self).members == old(self).members + 1
                &&& final(alloc).in_use() == old(alloc).in_use() + old(
                    process,
                ).inner.proc_vm->0.stack.usage()
            },
            result is Err ==> {
                &&& *final(process) == *old(process)
                &&& *final(pids) == *old(pids)
                &&& final(self).page_table@ == old(self).page_table@
                &&& final(self).members == old(self).members
                &&& *final(alloc) == *old(alloc)
            },
    {
        let _ = pids.is_exhausted();
        match process.fork(pids, &mut self.page_table, alloc) {
            Ok(child) => {
                self.members = self.members + 1;
                Ok(child)
            },
            Err(e) => Err(e),
        }
    }

    /// Answers a page fault of `process`, a member of this group, at
    /// `addr`; see [`ProcessInner::handle_page_fault`].
    pub fn page_fault(
        &mut self,
        process: &mut Process,
        addr: u64,
        alloc: &mut FrameAllocator,
        user_access: bool,
    ) -> (handled: bool)
        requires
            old(self).wf(),
            old(process).wf(),
            old(alloc).wf(),
        ensures
            final(self).wf(),
            final(process).wf(),
            final(alloc).wf(),
            final(alloc).total() == old(alloc).total(),
            final(self).heap == old(self).heap,
            final(self).data == old(self).data,
            final(self).members == old(self).members,
            final(process).pid == old(process).pid,
            handled == (old(process).inner.proc_vm matches Some(vm) && vm.stack.on_stack(addr)
                && range_free(old(self).page_table@, page_of(addr), vm.stack.missing(addr))
                && vm.stack.missing(addr) <= old(alloc).available()),
            handled ==> {
                &&& final(process).inner.proc_vm is Some
                &&& final(process).inner.proc_vm->0.group == old(process).inner.proc_vm->0.group
                &&& final(process).inner.proc_vm->0.stack.range().end == old(
                    process,
                ).inner.proc_vm->0.stack.range().end
                &&& final(process).inner.proc_vm->0.stack.range().start == old(
                    process,
                ).inner.proc_vm->0.stack.range().start - old(process).inner.proc_vm->0.stack.missing(addr)
                &&& final(process).inner == (ProcessInner {
                    proc_vm: final(process).inner.proc_vm,
                    ..old(process).inner
                })
                &&& final(self).page_table@ == with_range(
                    old(self).page_table@,
                    page_of(addr),
                    old(process).inner.proc_vm->0.stack.missing(addr),
                    user_access,
                )
                &&& final(alloc).in_use() == old(alloc).in_use() + old(
                    process,
                ).inner.proc_vm->0.stack.missing(addr)
            },
            !handled ==> {
                &&& *final(process) == *old(process)
                &&& final(self).page_table@ == old(self).page_table@
                &&& *final(alloc) == *old(alloc)
            },
    {
        process.inner.handle_page_fault(addr, &mut self.page_table, alloc, user_access)
    }
}

/// True when `child` is what a fork makes of `parent`, apart from its
/// stack: the same name and group, the parent's saved registers with the
/// stack pointer moved to the child's stack and zero in the return-value
/// register, `Ready`, no quantum run, no children, no exit code.
pub open spec fn is_child_of(child: Process, parent: Process) -> bool {
    &&& child.wf()
    &&& child.inner.proc_vm is Some
    &&& child.inner.proc_vm->0.group == parent.inner.proc_vm->0.group
    &&& child.inner.name@ == parent.inner.name@
    &&& child.inner.parent == Some(parent.pid)
    &&& child.inner.children@ == Seq::<super::pid::ProcessId>::empty()
    &&& child.inner.ticks_passed == 0
    &&& child.inner.status == super::ProgramStatus::Ready
    &&& child.inner.exit_code is None
    &&& child.inner.context == parent.inner.context.with_stack_offset(
        super::process::stack_distance(
            child.inner.proc_vm->0.stack.range().start,
            parent.inner.proc_vm->0.stack.range().start,
        ),
    ).with_rax(0)
}

/// True when `after` is the process `before` once it has forked `child`:
/// the child is the last of its children, its saved return-value register
/// holds the child's identifier, and nothing else has changed.
pub open spec fn is_after_fork(
    after: Process,
    before: Process,
    child: super::pid::ProcessId,
) -> bool {
    &&& after.inner.children@ == before.inner.children@.push(child)
    &&& after == (Process {
        pid: before.pid,
        inner: ProcessInner {
            children: after.inner.children,
            context: before.inner.context.with_rax(child.0 as usize),
            ..before.inner
        },
    })
}

} // verus!

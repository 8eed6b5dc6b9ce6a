//! A process: its identifier and everything the kernel records about it.

use super::context::ProcessContext;
use super::context::Selectors;
use super::pid::PidAllocator;
use super::pid::ProcessId;
use super::vm::stack;
use super::vm::stack::StackError;
use super::vm::ExecutableImage;
use super::vm::ProcessVm;
use super::ProgramStatus;
use crate::memory::address::page_of;
use crate::memory::frames::FrameAllocator;
use crate::memory::paging::range_free;
use crate::memory::paging::range_mapped;
use crate::memory::paging::without_range;
use crate::memory::paging::Mappings;
use crate::memory::paging::with_range;
use crate::memory::paging::MapError;
use crate::memory::paging::PageTable;
use vstd::prelude::*;

verus! {

/// The lower-case form of an ASCII letter, and any other character as it is.
pub open spec fn lower(c: char) -> char {
    if 'A' <= c && c <= 'Z' {
        ((c as u32) + 32) as char
    } else {
        c
    }
}

/// `s` with every ASCII capital replaced by its lower-case form.
pub open spec fn lowercase(s: Seq<char>) -> Seq<char> {
    Seq::new(s.len(), |i: int| lower(s[i]))
}

/// Calls `str::to_ascii_lowercase`, which maps the letters `A` to `Z` to
/// `a` to `z` and leaves every other character as it is.
#[verifier::external_body]
fn to_ascii_lowercase(name: &String) -> (lowered: String)
    ensures
        lowered@ == lowercase(name@),
{
    name.to_ascii_lowercase()
}

/// The mappings after the stack of `vm` was given back: without its pages
/// when all of them were mapped, unchanged otherwise and for a process
/// without memory.
pub open spec fn released(vm: Option<ProcessVm>, m: Mappings) -> Mappings {
    match vm {
        Some(vm) => if range_mapped(m, vm.stack.range().start, vm.stack.usage()) {
            without_range(m, vm.stack.range().start, vm.stack.usage())
        } else {
            m
        },
        None => m,
    }
}

/// The frames in use after the stack of `vm` was given back.
pub open spec fn released_in_use(vm: Option<ProcessVm>, m: Mappings, in_use: int) -> int {
    match vm {
        Some(vm) => if range_mapped(m, vm.stack.range().start, vm.stack.usage()) {
            if vm.stack.usage() <= in_use {
                in_use - vm.stack.usage()
            } else {
                0
            }
        } else {
            in_use
        },
        None => in_use,
    }
}

/// The distance in bytes from the stack that starts at page `parent` to the
/// one that starts at page `child`, modulo 2^64.
pub open spec fn stack_distance(child: u64, parent: u64) -> u64 {
    (if child >= parent {
        (child - parent) * 4096
    } else {
        (child - parent) * 4096 + 0x1_0000_0000_0000_0000
    }) as u64
}

/// The record of a process.
pub struct ProcessInner {
    /// The program's name, in lower case.
    pub name: String,
    /// The process that created this one, if any.
    pub parent: Option<ProcessId>,
    /// The processes that this one forked, oldest first.
    pub children: Vec<ProcessId>,
    /// Timer quanta that the process has run.
    pub ticks_passed: usize,
    /// Where the process stands in its life.
    pub status: ProgramStatus,
    /// The registers to continue with.
    pub context: ProcessContext,
    /// The exit code, once the process is dead.
    pub exit_code: Option<isize>,
    /// The memory of the process, until it is dead.
    pub proc_vm: Option<ProcessVm>,
}

impl ProcessInner {
    /// A dead process has an exit code and no memory; a live one has memory
    /// and no exit code. The stack of a live process is well-formed.
    pub open spec fn wf(&self) -> bool {
        &&& self.status is Dead <==> self.exit_code is Some
        &&& self.status is Dead <==> self.proc_vm is None
        &&& self.proc_vm matches Some(vm) ==> vm.stack.wf()
    }

    /// True when the process has not been killed.
    pub open spec fn alive(&self) -> bool {
        !(self.status is Dead)
    }

    /// The program's name.
    pub fn name(&self) -> (name: &String)
        ensures
            *name == self.name,
    {
        &self.name
    }

    /// Counts one more timer quantum.
    pub fn tick(&mut self)
        requires
            old(self).ticks_passed < usize::MAX,
        ensures
            *final(self) == (ProcessInner {
                ticks_passed: (old(self).ticks_passed + 1) as usize,
                ..*old(self)
            }),
    {
        self.ticks_passed = self.ticks_passed + 1;
    }

    /// Where the process stands in its life.
    pub fn status(&self) -> (status: ProgramStatus)
        ensures
            status == self.status,
    {
        self.status
    }

    /// Makes a live process `Ready`. A dead one stays dead.
    pub fn pause(&mut self)
        ensures
            *final(self) == old(self).moved_to(ProgramStatus::Ready),
    {
        if self.status != ProgramStatus::Dead {
            self.status = ProgramStatus::Ready;
        }
    }

    /// Makes a live process `Running`. A dead one stays dead.
    pub fn resume(&mut self)
        ensures
            *final(self) == old(self).moved_to(ProgramStatus::Running),
    {
        if self.status != ProgramStatus::Dead {
            self.status = ProgramStatus::Running;
        }
    }

    /// Makes a live process `Blocked`. A dead one stays dead.
    pub fn block(&mut self)
        ensures
            *final(self) == old(self).moved_to(ProgramStatus::Blocked),
    {
        if self.status != ProgramStatus::Dead {
            self.status = ProgramStatus::Blocked;
        }
    }

    /// This record with its status changed to `status`, unless the process
    /// is dead.
    pub open spec fn moved_to(self, status: ProgramStatus) -> ProcessInner {
        if self.status is Dead {
            self
        } else {
            ProcessInner { status, ..self }
        }
    }

    /// This record with `ret` in the saved return-value register.
    pub open spec fn with_return_value(self, ret: isize) -> ProcessInner {
        ProcessInner { context: self.context.with_rax(ret as usize), ..self }
    }

    /// This record after `kill(ret)`: dead, with `ret` as its exit code and
    /// without memory. A record that is dead already stays as it is.
    pub open spec fn killed(self, ret: isize) -> ProcessInner {
        if self.status is Dead {
            self
        } else {
            ProcessInner {
                exit_code: Some(ret),
                status: ProgramStatus::Dead,
                proc_vm: None,
                ..self
            }
        }
    }

    /// The exit code; `None` while the process is alive.
    pub fn exit_code(&self) -> (code: Option<isize>)
        ensures
            code == self.exit_code,
    {
        self.exit_code
    }

    /// Sets what the process finds in its return-value register when it
    /// runs again.
    pub fn set_return_value(&mut self, ret: isize)
        ensures
            *final(self) == old(self).with_return_value(ret),
    {
        self.context.set_rax(ret as usize);
    }

    /// True when the process waits for the processor.
    pub fn is_ready(&self) -> (ready: bool)
        ensures
            ready == (self.status is Ready),
    {
        self.status == ProgramStatus::Ready
    }

    /// The memory of a live process.
    pub fn vm(&self) -> (vm: &ProcessVm)
        requires
            self.proc_vm is Some,
        ensures
            Some(*vm) == self.proc_vm,
    {
        self.proc_vm.as_ref().unwrap()
    }

    /// The memory of a live process, for changing it.
    pub fn vm_mut(&mut self) -> (vm: &mut ProcessVm)
        requires
            old(self).proc_vm is Some,
        ensures
            Some(*vm) == old(self).proc_vm,
            *final(self) == (ProcessInner { proc_vm: Some(*final(vm)), ..*old(self) }),
    {
        self.proc_vm.as_mut().unwrap()
    }

    /// The group whose page table this process uses; `None` for a dead
    /// process.
    pub fn group(&self) -> (group: Option<usize>)
        ensures
            group == (match self.proc_vm {
                Some(vm) => Some(vm.group),
                None => None,
            }),
    {
        match &self.proc_vm {
            Some(vm) => Some(vm.group),
            None => None,
        }
    }

    /// The process that created this one, if any.
    pub fn parent(&self) -> (parent: Option<ProcessId>)
        ensures
            parent == self.parent,
    {
        self.parent
    }

    /// Stores the registers of `context` and makes the process `Ready`.
    pub fn save(&mut self, context: &ProcessContext)
        ensures
            *final(self) == (ProcessInner { context: *context, ..*old(self) }).moved_to(
                ProgramStatus::Ready,
            ),
    {
        self.context.save(context);
        self.pause();
    }

    /// Writes the stored registers into `context` and makes the process
    /// `Running`.
    pub fn restore(&mut self, context: &mut ProcessContext)
        ensures
            *final(context) == old(self).context,
            *final(self) == old(self).moved_to(ProgramStatus::Running),
    {
        self.context.restore(context);
        self.resume();
    }

    /// Answers a page fault of this process at `addr`: a live process lets
    /// its stack grow, see [`ProcessVm::handle_page_fault`]; for a dead one
    /// the answer is false.
    pub fn handle_page_fault(
        &mut self,
        addr: u64,
        mapper: &mut PageTable,
        alloc: &mut FrameAllocator,
        user_access: bool,
    ) -> (handled: bool)
        requires
            old(self).wf(),
            old(mapper).wf(),
            old(alloc).wf(),
        ensures
            final(self).wf(),
            final(mapper).wf(),
            final(alloc).wf(),
            final(alloc).total() == old(alloc).total(),
            handled == (old(self).proc_vm matches Some(vm) && vm.stack.on_stack(addr) && range_free(
                old(mapper)@,
                page_of(addr),
                vm.stack.missing(addr),
            ) && vm.stack.missing(addr) <= old(alloc).available()),
            handled ==> {
                &&& final(self).proc_vm is Some
                &&& final(self).proc_vm->0.group == old(self).proc_vm->0.group
                &&& final(self).proc_vm->0.stack.range().end == old(self).proc_vm->0.stack.range().end
                &&& final(self).proc_vm->0.stack.range().start == old(
                    self,
                ).proc_vm->0.stack.range().start - old(self).proc_vm->0.stack.missing(addr)
                &&& *final(self) == (ProcessInner { proc_vm: final(self).proc_vm, ..*old(self) })
                &&& final(mapper)@ == with_range(
                    old(mapper)@,
                    page_of(addr),
                    old(self).proc_vm->0.stack.missing(addr),
                    user_access,
                )
                &&& final(alloc).in_use() == old(alloc).in_use() + old(
                    self,
                ).proc_vm->0.stack.missing(addr)
            },
            !handled ==> {
                &&& *final(self) == *old(self)
                &&& final(mapper)@ == old(mapper)@
                &&& *final(alloc) == *old(alloc)
            },
    {
        match self.proc_vm.take() {
            Some(vm) => {
                let mut vm = vm;
                let handled = vm.handle_page_fault(addr, mapper, alloc, user_access);
                self.proc_vm = Some(vm);
                handled
            },
            None => false,
        }
    }

    /// Ends the process: records `ret` as its exit code, makes it `Dead`,
    /// and gives back the memory that belongs to it alone. The stack's pages
    /// are unmapped and their frames freed, unless one of them is not
    /// mapped, in which case the table is left as it is. Killing a dead
    /// process changes nothing: its first exit code stays.
    pub fn kill(&mut self, ret: isize, mapper: &mut PageTable, alloc: &mut FrameAllocator)
        requires
            old(self).wf(),
            old(mapper).wf(),
            old(alloc).wf(),
        ensures
            final(self).wf(),
            final(mapper).wf(),
            final(alloc).wf(),
            final(alloc).total() == old(alloc).total(),
            *final(self) == old(self).killed(ret),
            final(mapper)@ == released(old(self).proc_vm, old(mapper)@),
            final(alloc).in_use() == released_in_use(
                old(self).proc_vm,
                old(mapper)@,
                old(alloc).in_use(),
            ),
    {
        if self.status == ProgramStatus::Dead {
            return ;
        }
        self.exit_code = Some(ret);
        self.status = ProgramStatus::Dead;
        match self.proc_vm.take() {
            Some(vm) => {
                let mut vm = vm;
                let _ = vm.clean_up(mapper, alloc);
            },
            None => {},
        }
    }

    /// Maps the segments of `image` into the process's page table; see
    /// [`ProcessVm::load_elf`].
    pub fn load_elf(
        &mut self,
        image: &ExecutableImage,
        mapper: &mut PageTable,
        alloc: &mut FrameAllocator,
    ) -> (result: Result<(), MapError>)
        requires
            old(mapper).wf(),
            old(alloc).wf(),
            old(self).proc_vm is Some,
        ensures
            final(mapper).wf(),
            final(alloc).wf(),
            final(alloc).total() == old(alloc).total(),
            *final(self) == *old(self),
            result is Ok <==> super::vm::load_segments(
                old(mapper)@,
                old(alloc).available(),
                image.segments@,
                image.segments@.len(),
            ).ok,
            final(mapper)@ == super::vm::load_segments(
                old(mapper)@,
                old(alloc).available(),
                image.segments@,
                image.segments@.len(),
            ).mappings,
            final(alloc).available() == super::vm::load_segments(
                old(mapper)@,
                old(alloc).available(),
                image.segments@,
                image.segments@.len(),
            ).available,
    {
        match self.proc_vm.take() {
            Some(vm) => {
                let mut vm = vm;
                let result = vm.load_elf(image, mapper, alloc);
                self.proc_vm = Some(vm);
                result
            },
            None => Ok(()),
        }
    }

    /// The record of a process forked from this one, which `parent` names.
    ///
    /// The child's stack is a copy of this one's in a slot of its own, found
    /// by starting one slot further down for every child forked before; see
    /// [`Stack::fork`](super::vm::stack::Stack::fork). The child continues
    /// with this process's saved registers, except that its stack pointer is
    /// moved by the distance between the two stacks and its return-value
    /// register is zero. It is `Ready`, has run for no quantum, and has no
    /// children. On an error nothing changes.
    pub fn fork(
        &self,
        parent: ProcessId,
        mapper: &mut PageTable,
        alloc: &mut FrameAllocator,
    ) -> (result: Result<ProcessInner, StackError>)
        requires
            self.wf(),
            self.proc_vm is Some,
            self.children.len() < 0x1_0000,
            old(mapper).wf(),
            old(alloc).wf(),
        ensures
            final(mapper).wf(),
            final(alloc).wf(),
            final(alloc).total() == old(alloc).total(),
            stack::fork_outcome(
                self.proc_vm->0.stack,
                old(mapper)@,
                old(alloc).available(),
                (self.children.len() + 1) as u64,
            ) == (match result {
                Ok(child) => Ok(child.proc_vm->0.stack.range().start),
                Err(e) => Err(e),
            }),
            result matches Ok(child) ==> {
                &&& child.wf()
                &&& child.proc_vm is Some
                &&& child.proc_vm->0.group == self.proc_vm->0.group
                &&& stack::is_fork_of(
                    child.proc_vm->0.stack,
                    self.proc_vm->0.stack,
                    old(mapper)@,
                    final(mapper)@,
                )
                &&& child.name@ == self.name@
                &&& child.parent == Some(parent)
                &&& child.children@ == Seq::<ProcessId>::empty()
                &&& child.ticks_passed == 0
                &&& child.status == ProgramStatus::Ready
                &&& child.exit_code is None
                &&& child.context == self.context.with_stack_offset(
                    stack_distance(child.proc_vm->0.stack.range().start, self.proc_vm->0.stack.range().start),
                ).with_rax(0)
                &&& final(alloc).in_use() == old(alloc).in_use() + self.proc_vm->0.stack.usage()
            },
            result is Err ==> {
                &&& final(mapper)@ == old(mapper)@
                &&& *final(alloc) == *old(alloc)
            },
    {
        let stack_offset_count: u64 = self.children.len() as u64 + 1;
        let child_vm: ProcessVm = match self.vm().fork(mapper, alloc, stack_offset_count) {
            Ok(vm) => vm,
            Err(e) => {
                return Err(e);
            },
        };
        let offset: u64 = child_vm.stack.offset(&self.vm().stack);
        let mut child_context: ProcessContext = self.context;
        child_context.set_stack_offset(offset);
        child_context.set_rax(0);
        Ok(
            ProcessInner {
                name: self.name.clone(),
                parent: Some(parent),
                children: Vec::new(),
                ticks_passed: 0,
                status: ProgramStatus::Ready,
                context: child_context,
                exit_code: None,
                proc_vm: Some(child_vm),
            },
        )
    }

    /// Prepares the saved registers for the first run; see
    /// [`ProcessContext::init_stack_frame`].
    pub fn init_stack_frame(&mut self, entry: u64, stack_top: u64, selectors: Selectors)
        ensures
            *final(self) == (ProcessInner {
                context: old(self).context.started(entry, stack_top, selectors),
                ..*old(self)
            }),
    {
        self.context.init_stack_frame(entry, stack_top, selectors);
    }
}

/// A process: an identifier and the record that goes with it.
pub struct Process {
    /// The identifier, which never changes.
    pub pid: ProcessId,
    /// The record.
    pub inner: ProcessInner,
}

impl Process {
    /// The record is well-formed and the identifier is not zero.
    pub open spec fn wf(&self) -> bool {
        &&& self.pid.0 != 0
        &&& self.inner.wf()
    }

    /// The identifier.
    pub fn pid(&self) -> (pid: ProcessId)
        ensures
            pid == self.pid,
    {
        self.pid
    }

    /// The record, for reading.
    pub fn read(&self) -> (inner: &ProcessInner)
        ensures
            *inner == self.inner,
    {
        &self.inner
    }

    /// The record, for writing.
    pub fn write(&mut self) -> (inner: &mut ProcessInner)
        ensures
            *inner == old(self).inner,
            *final(self) == (Process { pid: old(self).pid, inner: *final(inner) }),
    {
        &mut self.inner
    }

    /// A new process with the next identifier of `pids`.
    ///
    /// It is `Ready`, carries the name in lower case, has zeroed registers,
    /// no children, no exit code and the memory `proc_vm`.
    pub fn new(
        name: String,
        parent: Option<ProcessId>,
        proc_vm: ProcessVm,
        pids: &mut PidAllocator,
    ) -> (process: Process)
        requires
            old(pids).next() < 0x1_0000,
            proc_vm.stack.wf(),
        ensures
            final(pids).next() == old(pids).next() + 1,
            process.pid.0 as nat == old(pids).next(),
            process.wf(),
            process.inner.name@ == lowercase(name@),
            process.inner.parent == parent,
            process.inner.children@ == Seq::<ProcessId>::empty(),
            process.inner.ticks_passed == 0,
            process.inner.status == ProgramStatus::Ready,
            process.inner.context == ProcessContext::zero(),
            process.inner.exit_code is None,
            process.inner.proc_vm == Some(proc_vm),
    {
        let name: String = to_ascii_lowercase(&name);
        let pid: ProcessId = ProcessId::new(pids);
        let inner = ProcessInner {
            name,
            parent,
            status: ProgramStatus::Ready,
            context: ProcessContext::default(),
            ticks_passed: 0,
            exit_code: None,
            children: Vec::new(),
            proc_vm: Some(proc_vm),
        };
        Process { pid, inner }
    }

    /// Forks this process.
    ///
    /// The child is the process that [`ProcessInner::fork`] describes, under
    /// the next identifier of `pids`. This process gets the child appended
    /// to its children and the child's identifier in its saved return-value
    /// register; the child's own return-value register holds zero. On an
    /// error nothing changes, and no identifier is used up.
    pub fn fork(
        &mut self,
        pids: &mut PidAllocator,
        mapper: &mut PageTable,
        alloc: &mut FrameAllocator,
    ) -> (result: Result<Process, StackError>)
        requires
            old(self).wf(),
            old(self).inner.proc_vm is Some,
            old(self).inner.children.len() < old(pids).next(),
            old(pids).next() < 0x1_0000,
            old(mapper).wf(),
            old(alloc).wf(),
        ensures
            final(self).wf(),
            final(mapper).wf(),
            final(alloc).wf(),
            final(alloc).total() == old(alloc).total(),
            final(self).inner.children.len() < final(pids).next(),
            stack::fork_outcome(
                old(self).inner.proc_vm->0.stack,
                old(mapper)@,
                old(alloc).available(),
                (old(self).inner.children.len() + 1) as u64,
            ) == (match result {
                Ok(child) => Ok(child.inner.proc_vm->0.stack.range().start),
                Err(e) => Err(e),
            }),
            result matches Ok(child) ==> {
                &&& child.wf()
                &&& child.pid.0 as nat == old(pids).next()
                &&& final(pids).next() == old(pids).next() + 1
                &&& *final(self) == (Process {
                    pid: old(self).pid,
                    inner: ProcessInner {
                        children: final(self).inner.children,
                        context: old(self).inner.context.with_rax(child.pid.0 as usize),
                        ..old(self).inner
                    },
                })
                &&& final(self).inner.children@ == old(self).inner.children@.push(child.pid)
                &&& child.inner.proc_vm is Some
                &&& child.inner.proc_vm->0.group == old(self).inner.proc_vm->0.group
                &&& stack::is_fork_of(
                    child.inner.proc_vm->0.stack,
                    old(self).inner.proc_vm->0.stack,
                    old(mapper)@,
                    final(mapper)@,
                )
                &&& child.inner.name@ == old(self).inner.name@
                &&& child.inner.parent == Some(old(self).pid)
                &&& child.inner.children@ == Seq::<ProcessId>::empty()
                &&& child.inner.ticks_passed == 0
                &&& child.inner.status == ProgramStatus::Ready
                &&& child.inner.exit_code is None
                &&& child.inner.context == old(self).inner.context.with_stack_offset(
                    stack_distance(
                        child.inner.proc_vm->0.stack.range().start,
                        old(self).inner.proc_vm->0.stack.range().start,
                    ),
                ).with_rax(0)
                &&& final(alloc).in_use() == old(alloc).in_use() + old(
                    self,
                ).inner.proc_vm->0.stack.usage()
            },
            result is Err ==> {
                &&& *final(self) == *old(self)
                &&& *final(pids) == *old(pids)
                &&& final(mapper)@ == old(mapper)@
                &&& *final(alloc) == *old(alloc)
            },
    {
        let _ = pids.is_exhausted();
        let child_inner: ProcessInner = match self.inner.fork(self.pid, mapper, alloc) {
            Ok(inner) => inner,
            Err(e) => {
                return Err(e);
            },
        };
        let child_pid: ProcessId = ProcessId::new(pids);
        let mut child = Process { pid: child_pid, inner: child_inner };
        self.inner.children.push(child_pid);
        self.inner.context.set_rax(child_pid.0 as usize);
        child.inner.pause();
        Ok(child)
    }

    /// Ends the process with exit code `ret`; see [`ProcessInner::kill`].
    pub fn kill(&mut self, ret: isize, mapper: &mut PageTable, alloc: &mut FrameAllocator)
        requires
            old(self).wf(),
            old(mapper).wf(),
            old(alloc).wf(),
        ensures
            final(self).wf(),
            final(mapper).wf(),
            final(alloc).wf(),
            final(alloc).total() == old(alloc).total(),
            *final(self) == (Process { pid: old(self).pid, inner: old(self).inner.killed(ret) }),
            final(mapper)@ == released(old(self).inner.proc_vm, old(mapper)@),
            final(alloc).in_use() == released_in_use(
                old(self).inner.proc_vm,
                old(mapper)@,
                old(alloc).in_use(),
            ),
    {
        self.inner.kill(ret, mapper, alloc);
    }
}

/// After a fork the child's saved stack pointer lies as far above the
/// child's lowest stack address as the parent's lies above its own: the
/// child continues on its own copy of the stack, at the same place.
pub proof fn lemma_fork_stack_pointer(parent_start: u64, child_start: u64, usage: nat, sp: u64)
    requires
        child_start <= parent_start,
        parent_start + usage <= 0x10_0000_0000_0000,
        parent_start * 4096 <= sp < (parent_start + usage) * 4096,
    ensures
        (sp + stack_distance(child_start, parent_start)) % 0x1_0000_0000_0000_0000 == sp - (
        parent_start - child_start) * 4096,
        child_start * 4096 <= sp - (parent_start - child_start) * 4096 < (child_start + usage)
            * 4096,
{
}

} // verus!

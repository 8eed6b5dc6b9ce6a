//! The system calls, one function each.

use super::SyscallArgs;
use crate::proc;
use crate::proc::context::ProcessContext;
use crate::proc::data::Resource;
use crate::proc::manager::ProcessManager;
use crate::proc::pid::ProcessId;
use crate::proc::process::Process;
use crate::proc::sync::set_can_signal;
use crate::proc::sync::set_wait;
use crate::proc::ProgramStatus;
use vstd::prelude::*;

verus! {

/// Spawns the app called `path` as a child of the current process and
/// returns its identifier; 0 when that fails. See
/// [`proc::did_spawn_by_name`].
pub fn spawn_process(manager: &mut ProcessManager, path: &str) -> (pid: usize)
    requires
        old(manager).wf(),
    ensures
        final(manager).wf(),
        exists|spawned: Option<ProcessId>| #[trigger]
            proc::did_spawn_by_name(*old(manager), *final(manager), path@, spawned) && pid == (
            match spawned {
                Some(child) => child.0 as usize,
                None => 0,
            }),
{
    match proc::spawn(manager, path) {
        Some(pid) => pid.0 as usize,
        None => 0,
    }
}

/// The identifier of the current process.
pub fn get_pid(manager: &ProcessManager) -> (pid: u16)
    ensures
        pid == manager.current.0,
{
    manager.current.0
}

/// The `fork` call; see [`proc::fork`].
pub fn sys_fork(manager: &mut ProcessManager, context: &mut ProcessContext)
    requires
        old(manager).wf(),
        old(manager).can_tick(),
    ensures
        final(manager).wf(),
        proc::did_fork(*old(manager), *final(manager), *old(context), *final(context)),
{
    proc::fork(manager, context);
}

/// True when `after` and `after_context` are what the `wait_pid` call with
/// the arguments `args` makes of `before` and `before_context`: a wait for
/// the process whose identifier is the low 16 bits of the first argument.
pub open spec fn did_sys_wait_pid(
    before: ProcessManager,
    after: ProcessManager,
    args: SyscallArgs,
    before_context: ProcessContext,
    after_context: ProcessContext,
) -> bool {
    proc::did_wait_pid(before, after, ProcessId(args.arg0 as u16), before_context, after_context)
}

/// The `wait_pid` call; see [`did_sys_wait_pid`].
pub fn sys_wait_pid(manager: &mut ProcessManager, args: &SyscallArgs, context: &mut ProcessContext)
    requires
        old(manager).wf(),
        old(manager).can_tick(),
    ensures
        final(manager).wf(),
        did_sys_wait_pid(*old(manager), *final(manager), *args, *old(context), *final(context)),
{
    let pid = ProcessId(args.arg0 as u16);
    proc::wait_pid(manager, pid, context);
}

/// True when the semaphore call `args` can be carried out on `manager`: a
/// signal needs room in the semaphore's count, a wait that blocks needs
/// room in the current process's count of quanta.
pub open spec fn can_sem(manager: ProcessManager, args: SyscallArgs) -> bool {
    if args.arg0 == 2 {
        set_can_signal(manager.semaphores(), args.arg1 as u32)
    } else if args.arg0 == 3 {
        set_wait(manager.semaphores(), args.arg1 as u32, manager.current).1 is Block
            ==> manager.can_tick()
    } else {
        true
    }
}

/// True when the semaphore call `args` can be carried out; see
/// [`can_sem`].
pub fn check_sem(manager: &ProcessManager, args: &SyscallArgs) -> (ok: bool)
    requires
        manager.wf(),
    ensures
        ok == can_sem(*manager, *args),
{
    if args.arg0 == 2 {
        manager.can_signal(args.arg1 as u32)
    } else if args.arg0 == 3 {
        manager.has_ticks_left() || !manager.would_block(args.arg1 as u32)
    } else {
        true
    }
}

/// True when `after` and `after_context` are what the semaphore call with
/// the arguments `args` makes of `before` and `before_context`.
///
/// The first argument chooses the operation: 0 creates the semaphore whose
/// key is the second argument with the third as its count, 1 removes it, 2
/// signals it and 3 waits on it. Creating and removing return 0 for success
/// and 1 for failure. Any other operation returns the largest `usize`.
pub open spec fn did_sys_sem(
    before: ProcessManager,
    after: ProcessManager,
    args: SyscallArgs,
    before_context: ProcessContext,
    after_context: ProcessContext,
) -> bool {
    let key = args.arg1 as u32;
    if args.arg0 == 0 {
        exists|added: bool| #[trigger]
            after.did_new_sem(&before, key, args.arg2, added) && after_context
                == before_context.with_rax(
                if added {
                    0
                } else {
                    1
                },
            )
    } else if args.arg0 == 1 {
        exists|removed: bool| #[trigger]
            after.did_remove_sem(&before, key, removed) && after_context
                == before_context.with_rax(
                if removed {
                    0
                } else {
                    1
                },
            )
    } else if args.arg0 == 2 {
        proc::did_sem_signal(before, after, key, before_context, after_context)
    } else if args.arg0 == 3 {
        proc::did_sem_wait(before, after, key, before_context, after_context)
    } else {
        after == before && after_context == before_context.with_rax(usize::MAX)
    }
}

/// The semaphore call; see [`did_sys_sem`].
pub fn sys_sem(manager: &mut ProcessManager, args: &SyscallArgs, context: &mut ProcessContext)
    requires
        old(manager).wf(),
        can_sem(*old(manager), *args),
    ensures
        final(manager).wf(),
        did_sys_sem(*old(manager), *final(manager), *args, *old(context), *final(context)),
{
    if args.arg0 == 0 {
        let status: usize = proc::new_sem(manager, args.arg1 as u32, args.arg2);
        context.set_rax(status);
        assert(manager.did_new_sem(old(manager), args.arg1 as u32, args.arg2, status == 0));
    } else if args.arg0 == 1 {
        let status: usize = proc::remove_sem(manager, args.arg1 as u32);
        context.set_rax(status);
        assert(manager.did_remove_sem(old(manager), args.arg1 as u32, status == 0));
    } else if args.arg0 == 2 {
        proc::sem_signal(manager, args.arg1 as u32, context);
    } else if args.arg0 == 3 {
        proc::sem_wait(manager, args.arg1 as u32, context);
    } else {
        context.set_rax(usize::MAX);
    }
}

/// True when `after` and `after_context` are what the `exit` call with the
/// arguments `args` makes of `before` and `before_context`: the current
/// process exits with the first argument as its code.
pub open spec fn did_exit_process(
    before: ProcessManager,
    after: ProcessManager,
    args: SyscallArgs,
    before_context: ProcessContext,
    after_context: ProcessContext,
) -> bool {
    proc::did_exit(before, after, args.arg0 as isize, before_context, after_context)
}

/// The `exit` call; see [`did_exit_process`].
pub fn exit_process(manager: &mut ProcessManager, args: &SyscallArgs, context: &mut ProcessContext)
    requires
        old(manager).wf(),
    ensures
        final(manager).wf(),
        did_exit_process(*old(manager), *final(manager), *args, *old(context), *final(context)),
{
    proc::exit(manager, args.arg0 as isize, context)
}

/// Files an opened file for the current process and returns its
/// descriptor. `file` is the handle that the storage layer gave, or `None`
/// when it could not open the file. Returns 0 when there is no file, or no
/// descriptor for it.
pub fn sys_open(manager: &mut ProcessManager, file: Option<u64>) -> (fd: usize)
    requires
        old(manager).wf(),
    ensures
        final(manager).wf(),
        file is None ==> fd == 0 && *final(manager) == *old(manager),
        file matches Some(handle) ==> exists|opened: Option<u8>| #[trigger]
            final(manager).did_open(old(manager), Resource::File(handle), opened) && fd == (
            match opened {
                Some(n) => n as usize,
                None => 0,
            }),
{
    match file {
        Some(handle) => match manager.open(Resource::File(handle)) {
            Some(fd) => fd as usize,
            None => 0,
        },
        None => 0,
    }
}

/// True when `after` is what the `close` call with the arguments `args`
/// makes of `before`, with `status` as its result: 1 when the descriptor in
/// the low 8 bits of the first argument was open, 0 when it was not.
pub open spec fn did_sys_close(
    before: ProcessManager,
    after: ProcessManager,
    args: SyscallArgs,
    status: usize,
) -> bool {
    &&& status == 0 || status == 1
    &&& after.did_close(&before, args.arg0 as u8, status == 1)
}

/// The `close` call; see [`did_sys_close`].
pub fn sys_close(manager: &mut ProcessManager, args: &SyscallArgs) -> (status: usize)
    requires
        old(manager).wf(),
    ensures
        final(manager).wf(),
        did_sys_close(*old(manager), *final(manager), *args, status),
{
    let fd = args.arg0 as u8;
    if manager.close(fd) {
        1
    } else {
        0
    }
}

/// The end that a `brk` call asks for: none when the first argument is
/// zero, which makes the call a query.
pub open spec fn brk_request(args: SyscallArgs) -> Option<u64> {
    if args.arg0 == 0 {
        None
    } else {
        Some(args.arg0 as u64)
    }
}

/// True when `after` is what the `brk` call with the arguments `args` makes
/// of `before`, with `status` as its result: the end of the heap, or the
/// largest `usize` when the heap could not be moved.
pub open spec fn did_sys_brk(
    before: ProcessManager,
    after: ProcessManager,
    args: SyscallArgs,
    status: usize,
) -> bool {
    exists|result: Option<u64>| #[trigger]
        after.did_brk(&before, brk_request(args), result) && status == (match result {
            Some(end) => end as usize,
            None => usize::MAX,
        })
}

/// The `brk` call; see [`did_sys_brk`].
pub fn sys_brk(manager: &mut ProcessManager, args: &SyscallArgs) -> (status: usize)
    requires
        old(manager).wf(),
    ensures
        final(manager).wf(),
        did_sys_brk(*old(manager), *final(manager), *args, status),
{
    let new_heap_end: Option<u64> = if args.arg0 == 0 {
        None
    } else {
        Some(args.arg0 as u64)
    };
    match proc::brk(manager, new_heap_end) {
        Some(new_heap_end) => new_heap_end as usize,
        None => usize::MAX,
    }
}

/// One line of the process list.
#[derive(Debug)]
pub struct ProcessInfo {
    /// The process's identifier.
    pub pid: u16,
    /// The identifier of its parent; 0 without one.
    pub ppid: u16,
    /// The program's name.
    pub name: String,
    /// Timer quanta that the process has run.
    pub ticks: usize,
    /// Bytes of memory that belong to the process alone.
    pub memory: u64,
    /// Where the process stands in its life.
    pub status: ProgramStatus,
}

/// True when `info` is the line for `process`.
pub open spec fn describes(info: ProcessInfo, process: Process) -> bool {
    &&& info.pid == process.pid.0
    &&& info.ppid == (match process.inner.parent {
        Some(parent) => parent.0,
        None => 0,
    })
    &&& info.name@ == process.inner.name@
    &&& info.ticks == process.inner.ticks_passed
    &&& info.memory == (match process.inner.proc_vm {
        Some(vm) => vm.stack.usage() * 4096,
        None => 0,
    })
    &&& info.status == process.inner.status
}

/// The identifiers from 1 to `n` that name a live process of `table`, in
/// rising order.
pub open spec fn live_pids(table: Map<u16, Process>, n: nat) -> Seq<u16>
    decreases n,
{
    if n == 0 {
        Seq::empty()
    } else {
        let before = live_pids(table, (n - 1) as nat);
        if table.contains_key(n as u16) && !(table[n as u16].inner.status is Dead) {
            before.push(n as u16)
        } else {
            before
        }
    }
}

/// The process list: one line for every live process, in the order of
/// their identifiers.
pub fn list_process(manager: &ProcessManager) -> (list: Vec<ProcessInfo>)
    requires
        manager.wf(),
    ensures
        list@.len() == live_pids(manager.processes@, (manager.pids.next() - 1) as nat).len(),
        forall|i: int|
            0 <= i < list@.len() ==> describes(
                #[trigger] list@[i],
                manager.processes@[live_pids(
                    manager.processes@,
                    (manager.pids.next() - 1) as nat,
                )[i]],
            ),
{
    let issued: u32 = manager.pids.issued();
    let mut list: Vec<ProcessInfo> = Vec::new();
    let mut k: u32 = 0;
    while k < issued
        invariant
            k <= issued,
            issued == manager.pids.next() - 1,
            issued <= 0xFFFF,
            manager.wf(),
            list@.len() == live_pids(manager.processes@, k as nat).len(),
            forall|i: int|
                0 <= i < list@.len() ==> describes(
                    #[trigger] list@[i],
                    manager.processes@[live_pids(manager.processes@, k as nat)[i]],
                ),
        decreases issued - k,
    {
        k = k + 1;
        let pid = ProcessId(k as u16);
        match manager.get_proc(&pid) {
            Some(process) => {
                if process.read().status() != ProgramStatus::Dead {
                    assert(manager.entry_wf(pid.0));
                    let ppid: u16 = match process.read().parent() {
                        Some(parent) => parent.0,
                        None => 0,
                    };
                    let memory: u64 = match &process.read().proc_vm {
                        Some(vm) => vm.memory_usage(),
                        None => 0,
                    };
                    list.push(
                        ProcessInfo {
                            pid: pid.0,
                            ppid,
                            name: process.read().name().clone(),
                            ticks: process.read().ticks_passed,
                            memory,
                            status: process.read().status(),
                        },
                    );
                }
            },
            None => {},
        }
    }
    list
}

} // verus!

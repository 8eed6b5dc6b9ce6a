//! System calls: what a process can ask of the kernel.

pub mod service;

use self::service::exit_process;
use self::service::get_pid;
use self::service::sys_brk;
use self::service::sys_close;
use self::service::sys_fork;
use self::service::sys_sem;
use self::service::sys_wait_pid;
use crate::proc::context::ProcessContext;
use crate::proc::manager::ProcessManager;
use vstd::prelude::*;

verus! {

/// The system calls.
#[derive(Clone, Copy, Debug, PartialEq, Eq, Structural)]
pub enum Syscall {
    Read,
    Write,
    GetPid,
    Fork,
    Spawn,
    Exit,
    WaitPid,
    Sem,
    Stat,
    ListApp,
    ListDir,
    Open,
    Close,
    Brk,
    Allocate,
    Deallocate,
    Unknown,
}

/// A system call with its three arguments.
#[derive(Clone, Copy, Debug, PartialEq, Eq, Structural)]
pub struct SyscallArgs {
    pub syscall: Syscall,
    pub arg0: usize,
    pub arg1: usize,
    pub arg2: usize,
}

impl SyscallArgs {
    /// The call `syscall` with the arguments `arg0`, `arg1` and `arg2`.
    pub fn new(syscall: Syscall, arg0: usize, arg1: usize, arg2: usize) -> (args: SyscallArgs)
        ensures
            args == (SyscallArgs { syscall, arg0, arg1, arg2 }),
    {
        SyscallArgs { syscall, arg0, arg1, arg2 }
    }

    /// The arguments of `syscall` as a process passes them: in the
    /// registers `rdi`, `rsi` and `rdx`.
    pub open spec fn of(syscall: Syscall, context: ProcessContext) -> SyscallArgs {
        SyscallArgs {
            syscall,
            arg0: context.regs.rdi,
            arg1: context.regs.rsi,
            arg2: context.regs.rdx,
        }
    }
}

/// What is left to do after the dispatcher has handled a system call: the
/// part that reads or writes memory of the calling process, a device or the
/// console.
#[derive(Clone, Copy, Debug, PartialEq, Eq, Structural)]
pub enum Deferred {
    /// The call is complete.
    Nothing,
    /// Read up to `len` bytes from the descriptor `fd` into the buffer at
    /// `ptr`.
    Read { fd: u8, ptr: usize, len: usize },
    /// Write the `len` bytes at `ptr` to the descriptor `fd`.
    Write { fd: u8, ptr: usize, len: usize },
    /// Spawn the program whose path is the `len` bytes at `ptr`.
    Spawn { ptr: usize, len: usize },
    /// Print the process list.
    Stat,
    /// Print the list of apps.
    ListApp,
    /// Print the directory whose path is the `len` bytes at `ptr`.
    ListDir { ptr: usize, len: usize },
    /// Open the file whose path is the `len` bytes at `ptr`.
    Open { ptr: usize, len: usize },
    /// Allocate memory as the layout at `layout` asks.
    Allocate { layout: usize },
    /// Free the memory at `ptr`, which has the layout at `layout`.
    Deallocate { ptr: usize, layout: usize },
    /// The call is not known; `number` is what the process passed.
    Unknown { number: usize },
}

/// The part of a call that the dispatcher leaves to its caller.
pub open spec fn deferred_part(args: SyscallArgs, number: usize) -> Deferred {
    match args.syscall {
        Syscall::Read => Deferred::Read { fd: args.arg0 as u8, ptr: args.arg1, len: args.arg2 },
        Syscall::Write => Deferred::Write { fd: args.arg0 as u8, ptr: args.arg1, len: args.arg2 },
        Syscall::Spawn => Deferred::Spawn { ptr: args.arg0, len: args.arg1 },
        Syscall::Stat => Deferred::Stat,
        Syscall::ListApp => Deferred::ListApp,
        Syscall::ListDir => Deferred::ListDir { ptr: args.arg0, len: args.arg1 },
        Syscall::Open => Deferred::Open { ptr: args.arg0, len: args.arg1 },
        Syscall::Allocate => Deferred::Allocate { layout: args.arg0 },
        Syscall::Deallocate => Deferred::Deallocate { ptr: args.arg0, layout: args.arg1 },
        Syscall::Unknown => Deferred::Unknown { number },
        _ => Deferred::Nothing,
    }
}

/// True when the call `args` can be carried out on `manager`: a call that
/// may save the current process needs room in its count of quanta, and a
/// signal needs room in the semaphore's count.
pub open spec fn can_dispatch(manager: ProcessManager, args: SyscallArgs) -> bool {
    match args.syscall {
        Syscall::Fork | Syscall::WaitPid => manager.can_tick(),
        Syscall::Sem => service::can_sem(manager, args),
        _ => true,
    }
}

/// True when `after` and `after_context` are what the dispatcher makes of
/// `before` and `before_context` for the call `syscall`.
///
/// A call that cannot be carried out changes nothing but the return-value
/// register, which gets the largest `usize`. A call that is left to the
/// caller changes nothing at all.
pub open spec fn did_dispatch(
    before: ProcessManager,
    after: ProcessManager,
    syscall: Syscall,
    before_context: ProcessContext,
    after_context: ProcessContext,
) -> bool {
    let args = SyscallArgs::of(syscall, before_context);
    if !can_dispatch(before, args) {
        after == before && after_context == before_context.with_rax(usize::MAX)
    } else {
        match syscall {
            Syscall::GetPid => after == before && after_context == before_context.with_rax(
                before.current.0 as usize,
            ),
            Syscall::Fork => crate::proc::did_fork(before, after, before_context, after_context),
            Syscall::Exit => service::did_exit_process(
                before,
                after,
                args,
                before_context,
                after_context,
            ),
            Syscall::WaitPid => service::did_sys_wait_pid(
                before,
                after,
                args,
                before_context,
                after_context,
            ),
            Syscall::Sem => service::did_sys_sem(before, after, args, before_context, after_context),
            Syscall::Close => exists|status: usize|
                #[trigger] service::did_sys_close(before, after, args, status) && after_context
                    == before_context.with_rax(status),
            Syscall::Brk => exists|status: usize|
                #[trigger] service::did_sys_brk(before, after, args, status) && after_context
                    == before_context.with_rax(status),
            _ => after == before && after_context == before_context,
        }
    }
}

/// Carries out the system call `syscall` of the current process, whose
/// registers are in `context`, and says what is left to do; see
/// [`did_dispatch`] and [`deferred_part`].
pub fn dispatcher(
    manager: &mut ProcessManager,
    syscall: Syscall,
    context: &mut ProcessContext,
) -> (deferred: Deferred)
    requires
        old(manager).wf(),
    ensures
        final(manager).wf(),
        did_dispatch(*old(manager), *final(manager), syscall, *old(context), *final(context)),
        deferred == deferred_part(SyscallArgs::of(syscall, *old(context)), old(context).regs.rax),
{
    let args = SyscallArgs::new(syscall, context.regs.rdi, context.regs.rsi, context.regs.rdx);
    match args.syscall {
        Syscall::Read => Deferred::Read { fd: args.arg0 as u8, ptr: args.arg1, len: args.arg2 },
        Syscall::Write => Deferred::Write { fd: args.arg0 as u8, ptr: args.arg1, len: args.arg2 },
        Syscall::GetPid => {
            context.set_rax(get_pid(manager) as usize);
            Deferred::Nothing
        },
        Syscall::Fork => {
            if manager.has_ticks_left() {
                sys_fork(manager, context);
            } else {
                context.set_rax(usize::MAX);
            }
            Deferred::Nothing
        },
        Syscall::Spawn => Deferred::Spawn { ptr: args.arg0, len: args.arg1 },
        Syscall::Exit => {
            exit_process(manager, &args, context);
            Deferred::Nothing
        },
        Syscall::WaitPid => {
            if manager.has_ticks_left() {
                sys_wait_pid(manager, &args, context);
            } else {
                context.set_rax(usize::MAX);
            }
            Deferred::Nothing
        },
        Syscall::Sem => {
            if service::check_sem(manager, &args) {
                sys_sem(manager, &args, context);
            } else {
                context.set_rax(usize::MAX);
            }
            Deferred::Nothing
        },
        Syscall::Stat => Deferred::Stat,
        Syscall::ListApp => Deferred::ListApp,
        Syscall::ListDir => Deferred::ListDir { ptr: args.arg0, len: args.arg1 },
        Syscall::Open => Deferred::Open { ptr: args.arg0, len: args.arg1 },
        Syscall::Close => {
            let status: usize = sys_close(manager, &args);
            context.set_rax(status);
            Deferred::Nothing
        },
        Syscall::Brk => {
            let status: usize = sys_brk(manager, &args);
            context.set_rax(status);
            Deferred::Nothing
        },
        Syscall::Allocate => Deferred::Allocate { layout: args.arg0 },
        Syscall::Deallocate => Deferred::Deallocate { ptr: args.arg0, layout: args.arg1 },
        Syscall::Unknown => Deferred::Unknown { number: context.regs.rax },
    }
}

} // verus!

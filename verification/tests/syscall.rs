use ysos::interrupt::syscall::dispatcher;
use ysos::interrupt::syscall::service::check_sem;
use ysos::interrupt::syscall::service::exit_process;
use ysos::interrupt::syscall::service::get_pid;
use ysos::interrupt::syscall::service::list_process;
use ysos::interrupt::syscall::service::spawn_process;
use ysos::interrupt::syscall::service::sys_brk;
use ysos::interrupt::syscall::service::sys_close;
use ysos::interrupt::syscall::service::sys_fork;
use ysos::interrupt::syscall::service::sys_open;
use ysos::interrupt::syscall::service::sys_sem;
use ysos::interrupt::syscall::service::sys_wait_pid;
use ysos::interrupt::syscall::Deferred;
use ysos::interrupt::syscall::Syscall;
use ysos::interrupt::syscall::SyscallArgs;
use ysos::memory::frames::FrameAllocator;
use ysos::memory::paging::map_range;
use ysos::memory::paging::PageTable;
use ysos::proc::context::ProcessContext;
use ysos::proc::context::Selectors;
use ysos::proc::init;
use ysos::proc::manager::App;
use ysos::proc::manager::ProcessManager;
use ysos::proc::pid::ProcessId;
use ysos::proc::switch;
use ysos::proc::vm::heap::HEAP_START;
use ysos::proc::vm::stack::KSTACK_INIT_BOT;
use ysos::proc::vm::ExecutableImage;
use ysos::proc::vm::Segment;
use ysos::proc::ProgramStatus;

fn boot() -> (ProcessManager, ProcessContext) {
    let mut table = PageTable::new();
    let mut frames = FrameAllocator::new(128);
    map_range(KSTACK_INIT_BOT, 4, &mut table, &mut frames, false).unwrap();
    let image = ExecutableImage { entry_point: 0x1000, segments: vec![Segment { start: 0x1000, pages: 1 }] };
    let apps = vec![App { name: "sh".to_string(), image }];
    let mut manager = init(table, frames, apps, Selectors { code_selector: 8, data_selector: 16 });
    assert_eq!(spawn_process(&mut manager, "sh"), 2);
    let mut context = ProcessContext::default();
    switch(&mut manager, &mut context);
    assert_eq!(get_pid(&manager), 2);
    (manager, context)
}

fn call(manager: &mut ProcessManager, context: &mut ProcessContext, syscall: Syscall, a: usize, b: usize, c: usize) -> Deferred {
    context.regs.rdi = a;
    context.regs.rsi = b;
    context.regs.rdx = c;
    dispatcher(manager, syscall, context)
}

#[test]
fn args_keep_what_they_are_given() {
    let args = SyscallArgs::new(Syscall::Brk, 1, 2, 3);
    assert_eq!(args.syscall, Syscall::Brk);
    assert_eq!((args.arg0, args.arg1, args.arg2), (1, 2, 3));
}

#[test]
fn spawn_process_returns_zero_for_unknown_apps() {
    let (mut manager, _) = boot();
    assert_eq!(spawn_process(&mut manager, "missing"), 0);
    assert_eq!(spawn_process(&mut manager, "sh"), 3);
    assert_eq!(manager.get_proc(&ProcessId(3)).unwrap().read().parent(), Some(ProcessId(2)));
}

#[test]
fn get_pid_goes_to_rax() {
    let (mut manager, mut context) = boot();
    assert_eq!(call(&mut manager, &mut context, Syscall::GetPid, 0, 0, 0), Deferred::Nothing);
    assert_eq!(context.regs.rax, 2);
}

#[test]
fn io_calls_are_left_to_the_caller() {
    let (mut manager, mut context) = boot();
    context.regs.rax = 4711;
    assert_eq!(
        call(&mut manager, &mut context, Syscall::Read, 0x100, 0x2000, 16),
        Deferred::Read { fd: 0, ptr: 0x2000, len: 16 }
    );
    assert_eq!(
        call(&mut manager, &mut context, Syscall::Write, 1, 0x3000, 5),
        Deferred::Write { fd: 1, ptr: 0x3000, len: 5 }
    );
    assert_eq!(call(&mut manager, &mut context, Syscall::Spawn, 0x10, 2, 0), Deferred::Spawn { ptr: 0x10, len: 2 });
    assert_eq!(call(&mut manager, &mut context, Syscall::Open, 0x10, 2, 0), Deferred::Open { ptr: 0x10, len: 2 });
    assert_eq!(call(&mut manager, &mut context, Syscall::ListDir, 0x10, 2, 0), Deferred::ListDir { ptr: 0x10, len: 2 });
    assert_eq!(call(&mut manager, &mut context, Syscall::Stat, 0, 0, 0), Deferred::Stat);
    assert_eq!(call(&mut manager, &mut context, Syscall::ListApp, 0, 0, 0), Deferred::ListApp);
    assert_eq!(call(&mut manager, &mut context, Syscall::Allocate, 0x40, 0, 0), Deferred::Allocate { layout: 0x40 });
    assert_eq!(
        call(&mut manager, &mut context, Syscall::Deallocate, 0x50, 0x40, 0),
        Deferred::Deallocate { ptr: 0x50, layout: 0x40 }
    );
    assert_eq!(call(&mut manager, &mut context, Syscall::Unknown, 0, 0, 0), Deferred::Unknown { number: 4711 });
    assert_eq!(context.regs.rax, 4711);
    assert_eq!(manager.current, ProcessId(2));
    assert_eq!(manager.processes.len(), 2);
}

#[test]
fn fork_and_wait_and_exit_through_the_dispatcher() {
    let (mut manager, mut context) = boot();
    assert_eq!(call(&mut manager, &mut context, Syscall::Fork, 0, 0, 0), Deferred::Nothing);
    assert_eq!(manager.current, ProcessId(1));
    switch(&mut manager, &mut context);
    assert_eq!(manager.current, ProcessId(3));
    assert_eq!(context.regs.rax, 0);
    switch(&mut manager, &mut context);
    assert_eq!(manager.current, ProcessId(2));
    assert_eq!(context.regs.rax, 3);
    // the parent waits for the child; the high bits of the argument are dropped
    assert_eq!(call(&mut manager, &mut context, Syscall::WaitPid, 0x7_0003, 0, 0), Deferred::Nothing);
    assert_eq!(manager.get_proc(&ProcessId(2)).unwrap().read().status(), ProgramStatus::Blocked);
    while manager.current != ProcessId(3) {
        switch(&mut manager, &mut context);
    }
    assert_eq!(call(&mut manager, &mut context, Syscall::Exit, (-7isize) as usize, 0, 0), Deferred::Nothing);
    assert_eq!(manager.get_exit_code(ProcessId(3)), Some(-7));
    while manager.current != ProcessId(2) {
        switch(&mut manager, &mut context);
    }
    assert_eq!(context.regs.rax as isize, -7);
}

#[test]
fn semaphore_operations_through_the_dispatcher() {
    let (mut manager, mut context) = boot();
    call(&mut manager, &mut context, Syscall::Sem, 0, 0x1_0000_0009, 1);
    assert_eq!(context.regs.rax, 0);
    call(&mut manager, &mut context, Syscall::Sem, 0, 9, 1);
    assert_eq!(context.regs.rax, 1);
    call(&mut manager, &mut context, Syscall::Sem, 3, 9, 0);
    assert_eq!(context.regs.rax, 0);
    call(&mut manager, &mut context, Syscall::Sem, 2, 9, 0);
    assert_eq!(context.regs.rax, 0);
    call(&mut manager, &mut context, Syscall::Sem, 2, 10, 0);
    assert_eq!(context.regs.rax, 1);
    call(&mut manager, &mut context, Syscall::Sem, 3, 10, 0);
    assert_eq!(context.regs.rax, 1);
    call(&mut manager, &mut context, Syscall::Sem, 1, 9, 0);
    assert_eq!(context.regs.rax, 0);
    call(&mut manager, &mut context, Syscall::Sem, 1, 9, 0);
    assert_eq!(context.regs.rax, 1);
    call(&mut manager, &mut context, Syscall::Sem, 4, 9, 0);
    assert_eq!(context.regs.rax, usize::MAX);
}

#[test]
fn calls_that_cannot_be_carried_out_return_the_largest_number() {
    let (mut manager, mut context) = boot();
    call(&mut manager, &mut context, Syscall::Sem, 0, 5, usize::MAX);
    assert_eq!(context.regs.rax, 0);
    let args = SyscallArgs::new(Syscall::Sem, 2, 5, 0);
    assert!(!check_sem(&manager, &args));
    call(&mut manager, &mut context, Syscall::Sem, 2, 5, 0);
    assert_eq!(context.regs.rax, usize::MAX);
    assert!(manager.can_signal(6));
    let wait = SyscallArgs::new(Syscall::Sem, 3, 5, 0);
    assert!(check_sem(&manager, &wait));
}

#[test]
fn brk_and_close_through_the_dispatcher() {
    let (mut manager, mut context) = boot();
    call(&mut manager, &mut context, Syscall::Brk, 0, 0, 0);
    assert_eq!(context.regs.rax as u64, HEAP_START);
    call(&mut manager, &mut context, Syscall::Brk, (HEAP_START + 4096) as usize, 0, 0);
    assert_eq!(context.regs.rax as u64, HEAP_START + 4096);
    call(&mut manager, &mut context, Syscall::Brk, 0x1000, 0, 0);
    assert_eq!(context.regs.rax, usize::MAX);
    call(&mut manager, &mut context, Syscall::Brk, 0, 0, 0);
    assert_eq!(context.regs.rax as u64, HEAP_START + 4096);
    call(&mut manager, &mut context, Syscall::Close, 0x102, 0, 0);
    assert_eq!(context.regs.rax, 1);
    call(&mut manager, &mut context, Syscall::Close, 2, 0, 0);
    assert_eq!(context.regs.rax, 0);
}

#[test]
fn service_functions_work_on_their_own() {
    let (mut manager, mut context) = boot();
    assert_eq!(sys_open(&mut manager, None), 0);
    assert_eq!(sys_open(&mut manager, Some(77)), 3);
    assert_eq!(sys_close(&mut manager, &SyscallArgs::new(Syscall::Close, 3, 0, 0)), 1);
    assert_eq!(sys_close(&mut manager, &SyscallArgs::new(Syscall::Close, 3, 0, 0)), 0);
    assert_eq!(sys_brk(&mut manager, &SyscallArgs::new(Syscall::Brk, 0, 0, 0)) as u64, HEAP_START);
    sys_sem(&mut manager, &SyscallArgs::new(Syscall::Sem, 0, 1, 0), &mut context);
    assert_eq!(context.regs.rax, 0);
    sys_fork(&mut manager, &mut context);
    assert_eq!(manager.processes.len(), 3);
    while manager.current != ProcessId(2) {
        switch(&mut manager, &mut context);
    }
    sys_wait_pid(&mut manager, &SyscallArgs::new(Syscall::WaitPid, 9, 0, 0), &mut context);
    assert_eq!(context.regs.rax, usize::MAX);
    exit_process(&mut manager, &SyscallArgs::new(Syscall::Exit, 3, 0, 0), &mut context);
    assert_eq!(manager.get_exit_code(ProcessId(2)), Some(3));
}

#[test]
fn process_list_shows_the_living() {
    let (mut manager, mut context) = boot();
    assert!(manager.handle_page_fault(ysos::proc::vm::stack::STACK_INIT_BOT - 1, 0));
    sys_fork(&mut manager, &mut context);
    manager.kill(ProcessId(2), 0);
    let list = list_process(&manager);
    assert_eq!(list.len(), 2);
    assert_eq!(list[0].pid, 1);
    assert_eq!(list[0].ppid, 0);
    assert_eq!(list[0].name, "kernel");
    assert_eq!(list[0].memory, 4 * 4096);
    assert_eq!(list[1].pid, 3);
    assert_eq!(list[1].ppid, 2);
    assert_eq!(list[1].name, "sh");
    assert_eq!(list[1].ticks, 0);
    assert_eq!(list[1].memory, 2 * 4096);
    assert_eq!(list[1].status, ProgramStatus::Ready);
}

//! Processes: identity, synchronisation, memory and scheduling.

pub mod context;
pub mod data;
pub mod group;
pub mod manager;
pub mod pid;
pub mod process;
pub mod sync;
pub mod vm;

use self::context::ProcessContext;
use self::context::Selectors;
use self::data::ProcessData;
use self::group::ProcessGroup;
use self::manager::App;
use self::manager::ProcessManager;
use self::pid::PidAllocator;
use self::pid::ProcessId;
use self::process::Process;
use self::sync::set_can_signal;
use self::sync::set_signal;
use self::sync::set_wait;
use self::sync::SemaphoreResult;
use self::vm::ExecutableImage;
use self::vm::ProcessVm;
use crate::memory::frames::FrameAllocator;
use crate::memory::paging::PageTable;
use vstd::prelude::*;

verus! {

/// Where a process stands in its life.
///
/// A process is created `Ready`, runs as `Running`, may wait as `Blocked`,
/// and ends as `Dead`, which it never leaves.
#[derive(Clone, Copy, Debug, PartialEq, Eq, Structural)]
pub enum ProgramStatus {
    Running,
    Ready,
    Blocked,
    Dead,
}

/// What `wait_pid` and `fork` put into the return-value register when they
/// cannot do what was asked: minus one.
pub const FAILURE: isize = -1;

/// True when `after` and `after_context` are what `switch` makes of
/// `before` and `before_context`.
///
/// A current process that is `Running` is saved, with one more quantum
/// counted, and put at the tail of the ready queue. Then the head of the
/// queue runs, see [`ProcessManager::switch_next`].
pub open spec fn did_switch(
    before: ProcessManager,
    after: ProcessManager,
    before_context: ProcessContext,
    after_context: ProcessContext,
) -> bool {
    if before.proc(before.current).inner.status is Running {
        exists|saved: ProcessManager| #[trigger]
            saved.did_save_current(&before, &before_context) && saved.wf() && exists|
                queued: ProcessManager,
            | #[trigger]
                queued.did_push_ready(&saved, before.current) && after.did_switch_next(
                    &queued,
                    before_context,
                    after_context,
                    after.current,
                )
    } else {
        after.did_switch_next(&before, before_context, after_context, after.current)
    }
}

/// Gives the processor to the next process, on a timer interrupt.
///
/// `context` holds the registers of the interrupted process on entry, and
/// those of the process to continue with on return. See [`did_switch`].
pub fn switch(manager: &mut ProcessManager, context: &mut ProcessContext)
    requires
        old(manager).wf(),
        old(manager).proc(old(manager).current).inner.status is Running ==> old(manager).can_tick(),
    ensures
        final(manager).wf(),
        did_switch(*old(manager), *final(manager), *old(context), *final(context)),
{
    let running: bool = manager.current().read().status() == ProgramStatus::Running;
    if running {
        let pid: ProcessId = manager.current;
        manager.save_current(context);
        let ghost saved = *manager;
        manager.push_ready(pid);
        let ghost queued = *manager;
        manager.switch_next(context);
        assert(queued.did_push_ready(&saved, pid) && manager.did_switch_next(
            &queued,
            *old(context),
            *context,
            manager.current,
        ));
        assert(saved.did_save_current(old(manager), old(context)));
    } else {
        manager.switch_next(context);
    }
}

/// Answers a page fault of the current process; see
/// [`ProcessManager::handle_page_fault`].
pub fn handle_page_fault(manager: &mut ProcessManager, addr: u64, err_code: u64) -> (handled: bool)
    requires
        old(manager).wf(),
    ensures
        final(manager).wf(),
        final(manager).did_handle_page_fault(old(manager), addr, err_code, handled),
{
    manager.handle_page_fault(addr, err_code)
}

/// True when `after` and `after_context` are what `exit(ret)` makes of
/// `before` and `before_context`: the current process is killed with `ret`,
/// then the head of the ready queue runs.
pub open spec fn did_exit(
    before: ProcessManager,
    after: ProcessManager,
    ret: isize,
    before_context: ProcessContext,
    after_context: ProcessContext,
) -> bool {
    exists|dead: ProcessManager| #[trigger]
        dead.did_kill(&before, before.current, ret) && dead.wf() && after.did_switch_next(
            &dead,
            before_context,
            after_context,
            after.current,
        )
}

/// Ends the current process with exit code `ret` and gives the processor
/// to the next; see [`did_exit`].
pub fn exit(manager: &mut ProcessManager, ret: isize, context: &mut ProcessContext)
    requires
        old(manager).wf(),
    ensures
        final(manager).wf(),
        did_exit(*old(manager), *final(manager), ret, *old(context), *final(context)),
{
    manager.kill_current(ret);
    let ghost dead = *manager;
    manager.switch_next(context);
    assert(dead.did_kill(old(manager), old(manager).current, ret));
}

/// True when `after` and `after_context` are what `fork` makes of `before`
/// and `before_context`.
///
/// The current process is saved, with one more quantum counted, and
/// forked, see [`ProcessManager::fork`]; a fork that fails leaves `FAILURE`
/// in its saved return-value register. Then the process joins the tail of
/// the ready queue, behind its child, and the head of the queue runs.
pub open spec fn did_fork(
    before: ProcessManager,
    after: ProcessManager,
    before_context: ProcessContext,
    after_context: ProcessContext,
) -> bool {
    exists|saved: ProcessManager| #[trigger]
        saved.did_save_current(&before, &before_context) && saved.wf() && exists|
            forked: ProcessManager,
            child: Option<ProcessId>,
        | #[trigger]
            forked.did_fork(&saved, child) && forked.wf() && exists|told: ProcessManager| #[trigger]
                is_told(told, forked, child) && exists|queued: ProcessManager| #[trigger]
                    queued.did_push_ready(&told, before.current) && after.did_switch_next(
                        &queued,
                        before_context,
                        after_context,
                        after.current,
                    )
}

/// True when `told` is `forked` once the parent has been told how its fork
/// ended: nothing changes after a fork that gave a child, and `FAILURE`
/// is in the saved return-value register of the current process after one
/// that did not.
pub open spec fn is_told(
    told: ProcessManager,
    forked: ProcessManager,
    child: Option<ProcessId>,
) -> bool {
    match child {
        Some(_) => told == forked,
        None => told.did_set_return_value(&forked, forked.current, FAILURE),
    }
}

/// Forks the current process and gives the processor to the next process;
/// see [`did_fork`].
pub fn fork(manager: &mut ProcessManager, context: &mut ProcessContext)
    requires
        old(manager).wf(),
        old(manager).can_tick(),
    ensures
        final(manager).wf(),
        did_fork(*old(manager), *final(manager), *old(context), *final(context)),
{
    manager.save_current(context);
    let ghost saved = *manager;
    let child: Option<ProcessId> = manager.fork();
    let ghost forked = *manager;
    let parent_pid: ProcessId = manager.current().pid();
    if child.is_none() {
        manager.set_return_value(parent_pid, FAILURE);
    }
    let ghost told = *manager;
    manager.push_ready(parent_pid);
    let ghost queued = *manager;
    manager.switch_next(context);
    assert(queued.did_push_ready(&told, old(manager).current) && manager.did_switch_next(
        &queued,
        *old(context),
        *context,
        manager.current,
    ));
    assert(is_told(told, forked, child));
    assert(forked.did_fork(&saved, child) && forked.wf());
    assert(saved.did_save_current(old(manager), old(context)));
}

/// True when `after` and `after_context` are what `wait_pid(pid)` makes of
/// `before` and `before_context`.
///
/// - For an identifier that names no process, `FAILURE` is returned at
///   once.
/// - For a dead process, its exit code is returned at once.
/// - For a live one, the current process is listed as waiting for it,
///   saved with one more quantum counted, and blocked; then the head of the
///   ready queue runs. The exit code arrives when the process is killed.
pub open spec fn did_wait_pid(
    before: ProcessManager,
    after: ProcessManager,
    pid: ProcessId,
    before_context: ProcessContext,
    after_context: ProcessContext,
) -> bool {
    if !before.has(pid) {
        after == before && after_context == before_context.with_rax(FAILURE as usize)
    } else if before.proc(pid).inner.exit_code is Some {
        after == before && after_context == before_context.with_rax(
            before.proc(pid).inner.exit_code->0 as usize,
        )
    } else {
        exists|listed: ProcessManager| #[trigger]
            listed.did_wait_pid(&before, pid) && listed.wf() && exists|saved: ProcessManager| #[trigger]
                saved.did_save_current(&listed, &before_context) && saved.wf() && exists|
                    blocked: ProcessManager,
                | #[trigger]
                    blocked.did_block(&saved, before.current) && after.did_switch_next(
                        &blocked,
                        before_context,
                        after_context,
                        after.current,
                    )
    }
}

/// Waits for the exit of `pid`; see [`did_wait_pid`].
pub fn wait_pid(manager: &mut ProcessManager, pid: ProcessId, context: &mut ProcessContext)
    requires
        old(manager).wf(),
        old(manager).has(pid) && old(manager).proc(pid).inner.exit_code is None ==> old(
            manager,
        ).can_tick(),
    ensures
        final(manager).wf(),
        did_wait_pid(*old(manager), *final(manager), pid, *old(context), *final(context)),
{
    if manager.get_proc(&pid).is_none() {
        context.set_rax(FAILURE as usize);
        return ;
    }
    match manager.get_exit_code(pid) {
        Some(ret) => {
            context.set_rax(ret as usize);
        },
        None => {
            let current: ProcessId = manager.current;
            manager.wait_pid(pid);
            let ghost listed = *manager;
            manager.save_current(context);
            let ghost saved = *manager;
            manager.block(current);
            let ghost blocked = *manager;
            manager.switch_next(context);
            assert(blocked.did_block(&saved, old(manager).current) && manager.did_switch_next(
                &blocked,
                *old(context),
                *context,
                manager.current,
            ));
            assert(saved.did_save_current(&listed, old(context)) && saved.wf());
            assert(listed.did_wait_pid(old(manager), pid) && listed.wf());
        },
    }
}

/// Creates a semaphore for the current process. Returns 0 when it was
/// created and 1 when it was not; see [`ProcessManager::new_sem`].
pub fn new_sem(manager: &mut ProcessManager, key: u32, val: usize) -> (status: usize)
    requires
        old(manager).wf(),
    ensures
        final(manager).wf(),
        status == 0 || status == 1,
        final(manager).did_new_sem(old(manager), key, val, status == 0),
{
    if manager.new_sem(key, val) {
        0
    } else {
        1
    }
}

/// Removes a semaphore of the current process. Returns 0 when it was
/// removed and 1 when it was not; see [`ProcessManager::remove_sem`].
pub fn remove_sem(manager: &mut ProcessManager, key: u32) -> (status: usize)
    requires
        old(manager).wf(),
    ensures
        final(manager).wf(),
        status == 0 || status == 1,
        final(manager).did_remove_sem(old(manager), key, status == 0),
{
    if manager.remove_sem(key) {
        0
    } else {
        1
    }
}

/// True when `after` and `after_context` are what `sem_signal(key)` makes
/// of `before` and `before_context`.
///
/// The semaphore `key` of the current process is signalled. `Done` puts 0
/// into the return-value register and `NotExist` 1. `WakeUp(pid)` wakes
/// `pid`, without a value for it, and leaves the registers as they are.
pub open spec fn did_sem_signal(
    before: ProcessManager,
    after: ProcessManager,
    key: u32,
    before_context: ProcessContext,
    after_context: ProcessContext,
) -> bool {
    let result = set_signal(before.semaphores(), key).1;
    exists|signalled: ProcessManager| #[trigger]
        signalled.did_sem_signal(&before, key, result) && signalled.wf() && match result {
            SemaphoreResult::Done => after == signalled && after_context == before_context.with_rax(
                0,
            ),
            SemaphoreResult::NotExist => after == signalled && after_context
                == before_context.with_rax(1),
            SemaphoreResult::WakeUp(pid) => after.did_wake_up(&signalled, pid, None)
                && after_context == before_context,
            SemaphoreResult::Block(_) => false,
        }
}

/// Signals a semaphore of the current process; see [`did_sem_signal`].
pub fn sem_signal(manager: &mut ProcessManager, key: u32, context: &mut ProcessContext)
    requires
        old(manager).wf(),
        set_can_signal(old(manager).semaphores(), key),
    ensures
        final(manager).wf(),
        did_sem_signal(*old(manager), *final(manager), key, *old(context), *final(context)),
{
    let ret: SemaphoreResult = manager.sem_signal(key);
    let ghost signalled = *manager;
    match ret {
        SemaphoreResult::Done => {
            context.set_rax(0);
        },
        SemaphoreResult::NotExist => {
            context.set_rax(1);
        },
        SemaphoreResult::WakeUp(pid) => {
            manager.wake_up(pid, None);
        },
        SemaphoreResult::Block(_) => {},
    }
    assert(signalled.did_sem_signal(old(manager), key, ret) && signalled.wf());
}

/// True when `after` and `after_context` are what `sem_wait(key)` makes of
/// `before` and `before_context`.
///
/// The current process waits on its semaphore `key`. `Done` puts 0 into
/// the return-value register and `NotExist` 1. `Block(pid)` saves the
/// current process with one more quantum counted and blocks `pid`, which is
/// the current process; then the head of the ready queue runs.
pub open spec fn did_sem_wait(
    before: ProcessManager,
    after: ProcessManager,
    key: u32,
    before_context: ProcessContext,
    after_context: ProcessContext,
) -> bool {
    let result = set_wait(before.semaphores(), key, before.current).1;
    exists|waited: ProcessManager| #[trigger]
        waited.did_sem_wait(&before, key, before.current, result) && waited.wf() && match result {
            SemaphoreResult::Done => after == waited && after_context == before_context.with_rax(0),
            SemaphoreResult::NotExist => after == waited && after_context
                == before_context.with_rax(1),
            SemaphoreResult::Block(pid) => exists|saved: ProcessManager| #[trigger]
                saved.did_save_current(&waited, &before_context) && saved.wf() && exists|
                    blocked: ProcessManager,
                | #[trigger]
                    blocked.did_block(&saved, pid) && after.did_switch_next(
                        &blocked,
                        before_context,
                        after_context,
                        after.current,
                    ),
            SemaphoreResult::WakeUp(_) => false,
        }
}

/// Waits on a semaphore of the current process; see [`did_sem_wait`].
pub fn sem_wait(manager: &mut ProcessManager, key: u32, context: &mut ProcessContext)
    requires
        old(manager).wf(),
        set_wait(old(manager).semaphores(), key, old(manager).current).1 is Block ==> old(
            manager,
        ).can_tick(),
    ensures
        final(manager).wf(),
        did_sem_wait(*old(manager), *final(manager), key, *old(context), *final(context)),
{
    let pid: ProcessId = manager.current;
    let ret: SemaphoreResult = manager.sem_wait(key, pid);
    let ghost waited = *manager;
    match ret {
        SemaphoreResult::Done => {
            context.set_rax(0);
        },
        SemaphoreResult::NotExist => {
            context.set_rax(1);
        },
        SemaphoreResult::Block(pid) => {
            manager.save_current(context);
            let ghost saved = *manager;
            manager.block(pid);
            let ghost blocked = *manager;
            manager.switch_next(context);
            assert(blocked.did_block(&saved, pid) && manager.did_switch_next(
                &blocked,
                *old(context),
                *context,
                manager.current,
            ));
            assert(saved.did_save_current(&waited, old(context)) && saved.wf());
        },
        SemaphoreResult::WakeUp(_) => {},
    }
    assert(waited.did_sem_wait(old(manager), key, old(manager).current, ret) && waited.wf());
}

/// The value of the variable `key` in the environment of the current
/// process; see [`ProcessManager::env`].
pub fn env(manager: &ProcessManager, key: &str) -> (value: Option<String>)
    requires
        manager.wf(),
    ensures
        match value {
            Some(v) => self::data::lookup(manager.environment(), key@) == Some(v@),
            None => self::data::lookup(manager.environment(), key@) is None,
        },
{
    let owned: String = key.to_owned();
    manager.env(&owned)
}

/// True while `pid` has no exit code: it is alive, or names no process.
pub fn still_alive(manager: &ProcessManager, pid: ProcessId) -> (alive: bool)
    ensures
        alive == !(manager.has(pid) && manager.proc(pid).inner.exit_code is Some),
{
    manager.get_exit_code(pid).is_none()
}

/// Queries or moves the end of the current process's heap; see
/// [`ProcessManager::brk`].
pub fn brk(manager: &mut ProcessManager, addr: Option<u64>) -> (result: Option<u64>)
    requires
        old(manager).wf(),
    ensures
        final(manager).wf(),
        final(manager).did_brk(old(manager), addr, result),
{
    manager.brk(addr)
}

/// The place of the first app of `apps` whose name is `name`; `None` when
/// no app has that name.
pub open spec fn find_app(apps: Seq<App>, name: Seq<char>) -> Option<int> {
    if exists|i: int| 0 <= i < apps.len() && apps[i].name@ == name {
        Some(choose|i: int| first_named(apps, name, i))
    } else {
        None
    }
}

/// True when `i` is the place of the first app of `apps` whose name is
/// `name`.
pub open spec fn first_named(apps: Seq<App>, name: Seq<char>, i: int) -> bool {
    &&& 0 <= i < apps.len()
    &&& apps[i].name@ == name
    &&& forall|j: int| 0 <= j < i ==> apps[j].name@ != name
}

/// Only one place is that of the first app with a given name.
pub proof fn lemma_first_named_unique(apps: Seq<App>, name: Seq<char>, i: int, j: int)
    requires
        first_named(apps, name, i),
        first_named(apps, name, j),
    ensures
        i == j,
{
}

/// Creates a process from an executable, as a child of the current
/// process; see [`ProcessManager::spawn`].
pub fn elf_spawn(manager: &mut ProcessManager, name: String, image: &ExecutableImage) -> (spawned:
    Option<ProcessId>)
    requires
        old(manager).wf(),
    ensures
        final(manager).wf(),
        final(manager).did_spawn(
            old(manager),
            image,
            name,
            Some(old(manager).current),
            None,
            spawned,
        ),
{
    let parent: ProcessId = manager.current;
    manager.spawn(image, name, Some(parent), None)
}

/// True when `after` is what `spawn(name)` makes of `before`, with the
/// result `spawned`: without an app of that name nothing happens, and else
/// the first app of that name is spawned under that name as a child of the
/// current process, see [`ProcessManager::spawn`].
pub open spec fn did_spawn_by_name(
    before: ProcessManager,
    after: ProcessManager,
    name: Seq<char>,
    spawned: Option<ProcessId>,
) -> bool {
    match find_app(before.app_list@, name) {
        Some(i) => exists|image: ExecutableImage, owned: String| #[trigger]
            after.did_spawn(&before, &image, owned, Some(before.current), None, spawned)
                && image.entry_point == before.app_list@[i].image.entry_point && image.segments@
                == before.app_list@[i].image.segments@ && owned@ == name,
        None => spawned is None && after.same_as(&before),
    }
}

/// Creates a process from the app called `name`, as a child of the current
/// process. `None`, with nothing changed, when no app has that name or the
/// app cannot be spawned; see [`did_spawn_by_name`].
pub fn spawn(manager: &mut ProcessManager, name: &str) -> (spawned: Option<ProcessId>)
    requires
        old(manager).wf(),
    ensures
        final(manager).wf(),
        did_spawn_by_name(*old(manager), *final(manager), name@, spawned),
{
    let ghost apps = manager.app_list@;
    let owned: String = name.to_owned();
    let mut i: usize = 0;
    while i < manager.app_list.len()
        invariant
            *manager == *old(manager),
            apps == manager.app_list@,
            owned@ == name@,
            i <= apps.len(),
            forall|j: int| 0 <= j < i ==> apps[j].name@ != name@,
        ensures
            i < apps.len() ==> apps[i as int].name@ == name@,
        decreases manager.app_list.len() - i,
    {
        if manager.app_list[i].name == owned {
            break ;
        }
        i = i + 1;
    }
    if i >= manager.app_list.len() {
        proof {
            assert(manager.same_as(old(manager))) by {
                assert forall|g: int| 0 <= g < manager.groups.len() implies (
                #[trigger] manager.groups[g]).same_as(&old(manager).groups[g]) by {}
            }
        }
        return None;
    }
    proof {
        assert(first_named(apps, name@, i as int));
        let found = find_app(apps, name@);
        assert(found is Some);
        lemma_first_named_unique(apps, name@, i as int, found->0);
    }
    let image: ExecutableImage = manager.app_list[i].image.duplicate();
    let spawned = elf_spawn(manager, owned, &image);
    assert(manager.did_spawn(old(manager), &image, owned, Some(old(manager).current), None, spawned));
    spawned
}

/// Starts process management at boot.
///
/// `page_table` holds what the boot loader has mapped, the kernel's stack
/// included. The kernel becomes the first process, with the identifier 1
/// and the name `kernel`, `Running` on that stack, alone in group 0 and in
/// the process table. No process is ready or waiting.
pub fn init(
    page_table: PageTable,
    frames: FrameAllocator,
    app_list: Vec<App>,
    selectors: Selectors,
) -> (manager: ProcessManager)
    requires
        page_table.wf(),
        frames.wf(),
    ensures
        manager.wf(),
        manager.current == ProcessId(self::pid::KERNEL_PID),
        manager.pids.next() == 2,
        manager.processes@.dom() == set![self::pid::KERNEL_PID],
        manager.proc(manager.current).pid == manager.current,
        manager.proc(manager.current).inner.status == ProgramStatus::Running,
        manager.proc(manager.current).inner.parent is None,
        manager.proc(manager.current).inner.children@ == Seq::<ProcessId>::empty(),
        manager.proc(manager.current).inner.ticks_passed == 0,
        manager.proc(manager.current).inner.exit_code is None,
        manager.proc(manager.current).inner.context == ProcessContext::zero(),
        manager.proc(manager.current).inner.proc_vm is Some,
        manager.proc(manager.current).inner.proc_vm->0.group == 0,
        manager.proc(manager.current).inner.proc_vm->0.stack
            == self::vm::stack::Stack::kstack_spec(),
        manager.ready_queue@ == Seq::<ProcessId>::empty(),
        manager.wait_queue@ == Map::<u16, Vec<ProcessId>>::empty(),
        manager.app_list == app_list,
        manager.groups.len() == 1,
        manager.groups[0].page_table == page_table,
        manager.groups[0].heap.end() == self::vm::heap::HEAP_START,
        manager.groups[0].members == 1,
        manager.groups[0].data.resources@ == self::data::standard_descriptors(),
        manager.groups[0].data.semaphores@ == Map::<u32, self::sync::SemState>::empty(),
        self::data::env_of(manager.groups[0].data.env@) == Seq::<(Seq<char>, Seq<char>)>::empty(),
        manager.frames == frames,
        manager.selectors == selectors,
{
    let mut pids = PidAllocator::new();
    let proc_vm: ProcessVm = ProcessVm::new(0).init_kernel_vm();
    let kproc: Process = Process::new("kernel".to_owned(), None, proc_vm, &mut pids);
    let mut group = ProcessGroup::new(page_table, ProcessData::new());
    group.members = 1;
    let manager = self::manager::init(kproc, app_list, group, frames, pids, selectors);
    assert(manager.processes@.dom() =~= set![self::pid::KERNEL_PID]);
    manager
}

} // verus!

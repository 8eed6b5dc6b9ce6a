//! The process manager: the table of all processes, the queue of those that
//! are ready to run, and the lists of those that wait for another to exit.

use super::context::ProcessContext;
use super::context::Selectors;
use super::group::in_use_after_exit;
use super::group::is_after_exit;
use super::group::ProcessGroup;
use super::pid::PidAllocator;
use super::pid::ProcessId;
use super::group::is_after_fork;
use super::group::is_child_of;
use super::process::Process;
use super::data::Descriptors;
use super::data::Resource;
use super::data::descriptors_full;
use super::data::lowest_free;
use super::sync::set_can_signal;
use super::sync::set_signal;
use super::sync::set_wait;
use super::sync::SemState;
use super::sync::SemStates;
use super::sync::SemaphoreResult;
use super::vm::heap::brk_end;
use super::vm::heap::brk_in_use;
use super::vm::heap::brk_mappings;
use super::vm::heap::brk_result;
use super::process::lowercase;
use super::data::ProcessData;
use super::vm::load_segments;
use super::vm::LoadState;
use super::vm::ProcessVm;
use super::vm::stack::STACK_INIT_TOP;
use crate::memory::paging::fresh_page;
use super::pid::KERNEL_PID;
use super::vm::stack;
use crate::memory::address::is_protection_violation;
use crate::memory::address::page_of;
use crate::memory::paging::range_free;
use crate::memory::paging::with_range;
use super::process::ProcessInner;
use super::vm::ExecutableImage;
use super::ProgramStatus;
use crate::memory::frames::FrameAllocator;
use std::collections::BTreeMap;
use std::collections::VecDeque;
use vstd::prelude::*;

verus! {

/// A program that can be spawned by name.
#[derive(Debug)]
pub struct App {
    pub name: String,
    pub image: ExecutableImage,
}

/// The process table, by the number of the process identifier.
pub type ProcessTable = Map<u16, Process>;

/// `s` with `pid` appended, unless it is in `s` already.
pub open spec fn with_waiter(s: Seq<ProcessId>, pid: ProcessId) -> Seq<ProcessId> {
    if s.contains(pid) {
        s
    } else {
        s.push(pid)
    }
}

/// The process `p` after `wake_up`: a live process is `Ready` and, when
/// `ret` holds a value, finds that value in its return-value register. A
/// dead process stays as it is.
pub open spec fn woken(p: Process, ret: Option<isize>) -> Process {
    if p.inner.status is Dead {
        p
    } else {
        Process {
            pid: p.pid,
            inner: (match ret {
                Some(r) => p.inner.with_return_value(r),
                None => p.inner,
            }).moved_to(ProgramStatus::Ready),
        }
    }
}

/// True when `wake_up(pid, ..)` has a process to wake: one that is in the
/// table and alive.
pub open spec fn can_wake(table: ProcessTable, pid: ProcessId) -> bool {
    table.contains_key(pid.0) && !(table[pid.0].inner.status is Dead)
}

/// The process table after `wake_up(pid, ret)`.
pub open spec fn table_after_wake(
    table: ProcessTable,
    pid: ProcessId,
    ret: Option<isize>,
) -> ProcessTable {
    if can_wake(table, pid) {
        table.insert(pid.0, woken(table[pid.0], ret))
    } else {
        table
    }
}

/// The ready queue after `wake_up(pid, ..)`.
pub open spec fn queue_after_wake(
    table: ProcessTable,
    queue: Seq<ProcessId>,
    pid: ProcessId,
) -> Seq<
    ProcessId,
> {
    if can_wake(table, pid) {
        queue.push(pid)
    } else {
        queue
    }
}

/// The process table after the first `n` processes of `waiters` were woken
/// with `ret`, one after another.
pub open spec fn table_after_wakes(
    table: ProcessTable,
    waiters: Seq<ProcessId>,
    ret: Option<isize>,
    n: nat,
) -> ProcessTable
    decreases n,
{
    if n == 0 {
        table
    } else {
        table_after_wake(
            table_after_wakes(table, waiters, ret, (n - 1) as nat),
            waiters[n - 1],
            ret,
        )
    }
}

/// The ready queue after the first `n` processes of `waiters` were woken,
/// one after another.
pub open spec fn queue_after_wakes(
    table: ProcessTable,
    queue: Seq<ProcessId>,
    waiters: Seq<ProcessId>,
    ret: Option<isize>,
    n: nat,
) -> Seq<ProcessId>
    decreases n,
{
    if n == 0 {
        queue
    } else {
        queue_after_wake(
            table_after_wakes(table, waiters, ret, (n - 1) as nat),
            queue_after_wakes(table, queue, waiters, ret, (n - 1) as nat),
            waiters[n - 1],
        )
    }
}

/// Waking processes adds nothing to the table and takes nothing from it,
/// and leaves every dead process exactly as it was.
pub proof fn lemma_wakes_keep_dead(
    table: ProcessTable,
    waiters: Seq<ProcessId>,
    ret: Option<isize>,
    n: nat,
    k: u16,
)
    requires
        n <= waiters.len(),
    ensures
        table_after_wakes(table, waiters, ret, n).contains_key(k) == table.contains_key(k),
        table.contains_key(k) ==> (table_after_wakes(table, waiters, ret, n)[k].inner.status is Dead)
            == (table[k].inner.status is Dead),
        table.contains_key(k) ==> table_after_wakes(table, waiters, ret, n)[k].pid == table[k].pid,
        table.contains_key(k) && table[k].inner.status is Dead ==> table_after_wakes(
            table,
            waiters,
            ret,
            n,
        )[k] == table[k],
    decreases n,
{
    if n > 0 {
        lemma_wakes_keep_dead(table, waiters, ret, (n - 1) as nat, k);
        lemma_wakes_keep_dead(table, waiters, ret, (n - 1) as nat, waiters[n - 1].0);
    }
}

/// Whatever the wake-ups do to a process, they do it once: each process is
/// either as it was or as one wake-up leaves it.
pub proof fn lemma_wakes_once(
    table: ProcessTable,
    waiters: Seq<ProcessId>,
    ret: Option<isize>,
    n: nat,
    k: u16,
)
    requires
        n <= waiters.len(),
        table.contains_key(k),
    ensures
        table_after_wakes(table, waiters, ret, n)[k] == table[k] || table_after_wakes(
            table,
            waiters,
            ret,
            n,
        )[k] == woken(table[k], ret),
    decreases n,
{
    if n > 0 {
        lemma_wakes_once(table, waiters, ret, (n - 1) as nat, k);
        lemma_wakes_keep_dead(table, waiters, ret, (n - 1) as nat, k);
        assert(woken(woken(table[k], ret), ret) == woken(table[k], ret));
    }
}

/// Every live process among the first `n` of `waiters` comes out of the
/// wake-ups `Ready` and with `ret` in its return-value register, however
/// many others were woken with it.
pub proof fn lemma_wakes_reach_each(
    table: ProcessTable,
    waiters: Seq<ProcessId>,
    ret: isize,
    n: nat,
    i: int,
)
    requires
        n <= waiters.len(),
        0 <= i < n,
        can_wake(table, waiters[i]),
    ensures
        table_after_wakes(table, waiters, Some(ret), n)[waiters[i].0] == woken(
            table[waiters[i].0],
            Some(ret),
        ),
        table_after_wakes(table, waiters, Some(ret), n)[waiters[i].0].inner.status is Ready,
        table_after_wakes(table, waiters, Some(ret), n)[waiters[i].0].inner.context.regs.rax
            == ret as usize,
    decreases n,
{
    let w = waiters[i];
    let before = table_after_wakes(table, waiters, Some(ret), (n - 1) as nat);
    lemma_wakes_keep_dead(table, waiters, Some(ret), (n - 1) as nat, w.0);
    lemma_wakes_keep_dead(table, waiters, Some(ret), (n - 1) as nat, waiters[n - 1].0);
    lemma_wakes_once(table, waiters, Some(ret), (n - 1) as nat, w.0);
    assert(woken(woken(table[w.0], Some(ret)), Some(ret)) == woken(table[w.0], Some(ret)));
    if i < n - 1 {
        lemma_wakes_reach_each(table, waiters, ret, (n - 1) as nat, i);
    }
}

/// The wake-ups append to the ready queue exactly the live processes among
/// the first `n` of `waiters`, in their order: each of them once, when no
/// process is listed twice.
pub proof fn lemma_wakes_queue(
    table: ProcessTable,
    queue: Seq<ProcessId>,
    waiters: Seq<ProcessId>,
    ret: Option<isize>,
    n: nat,
)
    requires
        n <= waiters.len(),
    ensures
        queue_after_wakes(table, queue, waiters, ret, n) == queue + waiters.take(n as int).filter(
            |w: ProcessId| can_wake(table, w),
        ),
    decreases n,
{
    let live = |w: ProcessId| can_wake(table, w);
    if n == 0 {
        assert(waiters.take(0).filter(live) =~= Seq::<ProcessId>::empty());
        assert(queue + Seq::<ProcessId>::empty() =~= queue);
    } else {
        lemma_wakes_queue(table, queue, waiters, ret, (n - 1) as nat);
        lemma_wakes_keep_dead(table, waiters, ret, (n - 1) as nat, waiters[n - 1].0);
        let front = waiters.take(n - 1);
        let upto = waiters.take(n as int);
        assert(upto.drop_last() =~= front);
        assert(upto.last() == waiters[n - 1]);
        reveal(Seq::filter);
        if live(waiters[n - 1]) {
            assert(upto.filter(live) == front.filter(live).push(waiters[n - 1]));
            assert((queue + front.filter(live)).push(waiters[n - 1]) =~= queue + upto.filter(live));
        } else {
            assert(upto.filter(live) == front.filter(live));
        }
    }
}

/// The state of the kernel's process management.
pub struct ProcessManager {
    /// Every process ever created, by the number of its identifier.
    pub processes: BTreeMap<u16, Process>,
    /// The processes that wait for the processor, next to run first.
    pub ready_queue: VecDeque<ProcessId>,
    /// For an awaited process, by the number of its identifier: those that
    /// wait for its exit, in the order in which they began to wait.
    pub wait_queue: BTreeMap<u16, Vec<ProcessId>>,
    /// The programs that can be spawned by name.
    pub app_list: Vec<App>,
    /// The fork families; group 0 is the kernel's.
    pub groups: Vec<ProcessGroup>,
    /// The allocator of physical frames.
    pub frames: FrameAllocator,
    /// The source of process identifiers.
    pub pids: PidAllocator,
    /// The process that the processor runs.
    pub current: ProcessId,
    /// The segments that user code runs with.
    pub selectors: Selectors,
}

impl ProcessManager {
    /// True when `pid` names a process of the table.
    pub open spec fn has(&self, pid: ProcessId) -> bool {
        self.processes@.contains_key(pid.0)
    }

    /// The process that `pid` names.
    pub open spec fn proc(&self, pid: ProcessId) -> Process {
        self.processes@[pid.0]
    }

    /// Those that wait for the exit of `pid`, longest-waiting first.
    pub open spec fn waiters(&self, pid: ProcessId) -> Seq<ProcessId> {
        if self.wait_queue@.contains_key(pid.0) {
            self.wait_queue@[pid.0]@
        } else {
            Seq::empty()
        }
    }

    /// What holds of one entry of the process table.
    pub open spec fn entry_wf(&self, k: u16) -> bool {
        let p = self.processes@[k];
        &&& p.pid.0 == k
        &&& p.wf()
        &&& k < self.pids.next()
        &&& p.inner.children.len() < self.pids.next()
        &&& p.inner.proc_vm matches Some(vm) ==> vm.group < self.groups.len()
    }

    /// The state is consistent:
    /// - every process is filed under its own identifier, which the
    ///   allocator has issued, and a live one belongs to an existing group;
    /// - the current process is in the table;
    /// - the kernel's group exists, and every group is well-formed and has
    ///   fewer members than identifiers were issued;
    /// - nobody waits twice for the same process.
    pub open spec fn wf(&self) -> bool {
        &&& forall|k: u16| #[trigger] self.processes@.contains_key(k) ==> self.entry_wf(k)
        &&& self.processes@.contains_key(self.current.0)
        &&& self.groups.len() >= 1
        &&& forall|g: int|
            0 <= g < self.groups.len() ==> (#[trigger] self.groups[g]).wf() && self.groups[g].members
                < self.pids.next()
        &&& self.frames.wf()
        &&& forall|k: u16| #[trigger]
            self.wait_queue@.contains_key(k) ==> self.wait_queue@[k]@.no_duplicates()
    }

    /// True when this state and `other` look the same: the same processes
    /// and queues, groups that look the same, as many frames in use, the
    /// same next identifier and current process.
    pub open spec fn same_as(&self, other: &ProcessManager) -> bool {
        &&& self.processes@ == other.processes@
        &&& self.ready_queue@ == other.ready_queue@
        &&& self.wait_queue@ == other.wait_queue@
        &&& self.app_list == other.app_list
        &&& self.groups.len() == other.groups.len()
        &&& forall|g: int|
            0 <= g < self.groups.len() ==> (#[trigger] self.groups[g]).same_as(&other.groups[g])
        &&& self.frames.total() == other.frames.total()
        &&& self.frames.in_use() == other.frames.in_use()
        &&& self.pids.next() == other.pids.next()
        &&& self.current == other.current
        &&& self.selectors == other.selectors
    }

    /// True when this state differs from `other` at most in the process
    /// table, the ready queue, the group `group` and the frames in use.
    pub open spec fn same_but(&self, other: &ProcessManager, group: int) -> bool {
        &&& self.wait_queue@ == other.wait_queue@
        &&& self.app_list == other.app_list
        &&& self.groups.len() == other.groups.len()
        &&& forall|g: int|
            0 <= g < self.groups.len() && g != group ==> (#[trigger] self.groups[g]) == other.groups[g]
        &&& self.frames.total() == other.frames.total()
        &&& self.current == other.current
        &&& self.selectors == other.selectors
    }

    /// The programs that can be spawned by name.
    pub fn app_list(&self) -> (apps: &Vec<App>)
        ensures
            *apps == self.app_list,
    {
        &self.app_list
    }

    /// True when this state is `before` after `push_ready(pid)`.
    pub open spec fn did_push_ready(&self, before: &ProcessManager, pid: ProcessId) -> bool {
        &&& *self == (ProcessManager { ready_queue: self.ready_queue, ..*before })
        &&& self.ready_queue@ =~= before.ready_queue@.push(pid)
    }

    /// Appends `pid` to the ready queue.
    pub fn push_ready(&mut self, pid: ProcessId)
        ensures
            old(self).wf() ==> final(self).wf(),
            final(self).did_push_ready(old(self), pid),
    {
        self.ready_queue.push_back(pid);
        proof {
            if old(self).wf() {
                assert forall|k: u16| #[trigger]
                    self.processes@.contains_key(k) implies self.entry_wf(k) by {
                    assert(old(self).entry_wf(k));
                }
            }
        }
    }

    /// The process that `pid` names; `None` when there is none.
    pub fn get_proc(&self, pid: &ProcessId) -> (process: Option<&Process>)
        ensures
            process == (if self.has(*pid) {
                Some(&self.proc(*pid))
            } else {
                None
            }),
    {
        self.processes.get(&pid.0)
    }

    /// The process that the processor runs.
    pub fn current(&self) -> (process: &Process)
        requires
            self.wf(),
        ensures
            *process == self.proc(self.current),
            process.pid == self.current,
    {
        let found = self.processes.get(&self.current.0);
        assert(self.entry_wf(self.current.0));
        found.unwrap()
    }

    /// The exit code of `pid`; `None` while it is alive, and for an
    /// identifier that names no process.
    pub fn get_exit_code(&self, pid: ProcessId) -> (code: Option<isize>)
        ensures
            code == (if self.has(pid) {
                self.proc(pid).inner.exit_code
            } else {
                None
            }),
    {
        match self.get_proc(&pid) {
            Some(process) => process.read().exit_code(),
            None => None,
        }
    }

    /// Files `process` under `pid`.
    fn add_proc(&mut self, pid: ProcessId, process: Process)
        ensures
            *final(self) == (ProcessManager { processes: final(self).processes, ..*old(self) }),
            final(self).processes@ == old(self).processes@.insert(pid.0, process),
    {
        self.processes.insert(pid.0, process);
    }

    /// True when this state is `before` after `block(pid)`.
    pub open spec fn did_block(&self, before: &ProcessManager, pid: ProcessId) -> bool {
        &&& *self == (ProcessManager { processes: self.processes, ..*before })
        &&& self.processes@ =~= (if before.has(pid) {
            before.processes@.insert(
                pid.0,
                Process {
                    pid: before.proc(pid).pid,
                    inner: before.proc(pid).inner.moved_to(ProgramStatus::Blocked),
                },
            )
        } else {
            before.processes@
        })
    }

    /// Makes the process `pid` `Blocked`. It is not put into any queue:
    /// only `wake_up` makes it ready again. Nothing happens for an
    /// identifier that names no process, and for a dead process.
    pub fn block(&mut self, pid: ProcessId)
        requires
            old(self).wf(),
        ensures
            final(self).wf(),
            final(self).did_block(old(self), pid),
    {
        match self.processes.remove(&pid.0) {
            Some(process) => {
                assert(old(self).entry_wf(pid.0));
                let mut process = process;
                process.inner.block();
                self.processes.insert(pid.0, process);
                assert forall|k: u16| #[trigger]
                    self.processes@.contains_key(k) implies self.entry_wf(k) by {
                    if k != pid.0 {
                        assert(old(self).entry_wf(k));
                    }
                }
            },
            None => {
                assert(self.processes@ =~= old(self).processes@);
            },
        }
    }

    /// True when this state is `before` after `wait_pid(pid)`.
    pub open spec fn did_wait_pid(&self, before: &ProcessManager, pid: ProcessId) -> bool {
        &&& *self == (ProcessManager { wait_queue: self.wait_queue, ..*before })
        &&& self.waiters(pid) =~= with_waiter(before.waiters(pid), before.current)
        &&& forall|other: ProcessId|
            other != pid ==> self.waiters(other) =~= before.waiters(other)
    }

    /// Records that the current process waits for the exit of `pid`. The
    /// current process is not blocked by this: that is a step of its own.
    /// Waiting twice for the same process is recorded once.
    pub fn wait_pid(&mut self, pid: ProcessId)
        requires
            old(self).wf(),
        ensures
            final(self).wf(),
            final(self).did_wait_pid(old(self), pid),
    {
        let current: ProcessId = self.current;
        let mut waiting: Vec<ProcessId> = match self.wait_queue.remove(&pid.0) {
            Some(waiting) => waiting,
            None => Vec::new(),
        };
        assert(waiting@ == old(self).waiters(pid));
        assert(waiting@.no_duplicates());
        let mut found: bool = false;
        let mut i: usize = 0;
        while i < waiting.len()
            invariant
                i <= waiting.len(),
                found == waiting@.subrange(0, i as int).contains(current),
            decreases waiting.len() - i,
        {
            let ghost before = waiting@.subrange(0, i as int);
            let ghost after = waiting@.subrange(0, i + 1);
            assert(after =~= before.push(waiting@[i as int]));
            if waiting[i] == current {
                found = true;
                assert(after[i as int] == current);
            } else {
                assert forall|j: int| 0 <= j < after.len() && after[j] == current implies before.contains(
                    current,
                ) by {
                    assert(before[j] == current);
                }
            }
            i = i + 1;
        }
        assert(waiting@.subrange(0, waiting.len() as int) =~= waiting@);
        if !found {
            waiting.push(current);
            assert forall|a: int, b: int|
                0 <= a < waiting@.len() && 0 <= b < waiting@.len() && a != b implies waiting@[a]
                != waiting@[b] by {
                let prev = old(self).waiters(pid);
                if a == prev.len() {
                    assert(prev[b] == waiting@[b]);
                    if prev[b] == current {
                        assert(prev.contains(current));
                    }
                } else if b == prev.len() {
                    assert(prev[a] == waiting@[a]);
                    if prev[a] == current {
                        assert(prev.contains(current));
                    }
                } else {
                    assert(prev[a] == waiting@[a]);
                    assert(prev[b] == waiting@[b]);
                }
            }
        }
        self.wait_queue.insert(pid.0, waiting);
        assert forall|other: ProcessId| other != pid implies self.waiters(other) == old(
            self,
        ).waiters(other) by {
            assert(other.0 != pid.0);
        }
    }

    /// True when this state is `before` after `wake_up(pid, ret)`.
    pub open spec fn did_wake_up(
        &self,
        before: &ProcessManager,
        pid: ProcessId,
        ret: Option<isize>,
    ) -> bool {
        &&& *self == (ProcessManager {
            processes: self.processes,
            ready_queue: self.ready_queue,
            ..*before
        })
        &&& self.processes@ =~= table_after_wake(before.processes@, pid, ret)
        &&& self.ready_queue@ =~= queue_after_wake(
            before.processes@,
            before.ready_queue@,
            pid,
        )
    }

    /// Makes the process `pid` ready to run again: a live process gets `ret`,
    /// if there is one, into its saved return-value register, becomes
    /// `Ready` and joins the tail of the ready queue. Nothing happens for an
    /// identifier that names no process, and for a dead process.
    pub fn wake_up(&mut self, pid: ProcessId, ret: Option<isize>)
        requires
            old(self).wf(),
        ensures
            final(self).wf(),
            final(self).did_wake_up(old(self), pid, ret),
    {
        match self.processes.remove(&pid.0) {
            Some(process) => {
                assert(old(self).entry_wf(pid.0));
                let mut process = process;
                let alive: bool = process.inner.status() != ProgramStatus::Dead;
                if alive {
                    match ret {
                        Some(ret) => {
                            process.inner.set_return_value(ret);
                        },
                        None => {},
                    }
                    process.inner.pause();
                }
                self.processes.insert(pid.0, process);
                if alive {
                    self.ready_queue.push_back(pid);
                } else {
                    assert(self.processes@ =~= old(self).processes@);
                }
                assert forall|k: u16| #[trigger]
                    self.processes@.contains_key(k) implies self.entry_wf(k) by {
                    if k != pid.0 {
                        assert(old(self).entry_wf(k));
                    }
                }
            },
            None => {
                assert(self.processes@ =~= old(self).processes@);
            },
        }
    }

    /// True when the current process can count one more quantum.
    pub open spec fn can_tick(&self) -> bool {
        self.proc(self.current).inner.ticks_passed < usize::MAX
    }

    /// True when this state is `before` after `save_current(context)`.
    pub open spec fn did_save_current(
        &self,
        before: &ProcessManager,
        context: &ProcessContext,
    ) -> bool {
        &&& *self == (ProcessManager { processes: self.processes, ..*before })
        &&& self.processes@ =~= before.processes@.insert(
            before.current.0,
            Process {
                pid: before.current,
                inner: (ProcessInner {
                    ticks_passed: (before.proc(before.current).inner.ticks_passed
                        + 1) as usize,
                    context: *context,
                    ..before.proc(before.current).inner
                }).moved_to(ProgramStatus::Ready),
            },
        )
    }

    /// True when the current process can count one more quantum.
    pub fn has_ticks_left(&self) -> (left: bool)
        requires
            self.wf(),
        ensures
            left == self.can_tick(),
    {
        self.current().read().ticks_passed < usize::MAX
    }

    /// Counts one more quantum for the current process and stores the
    /// registers of `context` with it. A live process becomes `Ready` by
    /// this.
    pub fn save_current(&mut self, context: &ProcessContext)
        requires
            old(self).wf(),
            old(self).can_tick(),
        ensures
            final(self).wf(),
            final(self).did_save_current(old(self), context),
    {
        let current: ProcessId = self.current;
        assert(old(self).entry_wf(current.0));
        match self.processes.remove(&current.0) {
            Some(process) => {
                let mut process = process;
                process.inner.tick();
                process.inner.save(context);
                self.processes.insert(current.0, process);
                assert forall|k: u16| #[trigger]
                    self.processes@.contains_key(k) implies self.entry_wf(k) by {
                    if k != current.0 {
                        assert(old(self).entry_wf(k));
                    }
                }
            },
            None => {},
        }
    }

    /// True when `switch_next` finds a process to run: the ready queue has a
    /// head, and the head names a process that is `Ready`.
    pub open spec fn next_is_ready(&self) -> bool {
        &&& self.ready_queue@.len() > 0
        &&& self.has(self.ready_queue@[0])
        &&& self.proc(self.ready_queue@[0]).inner.status is Ready
    }

    /// True when this state and `after_context` are what `switch_next` makes of
    /// `before` and `before_context`, with `next` as its result.
    pub open spec fn did_switch_next(
        &self,
        before: &ProcessManager,
        before_context: ProcessContext,
        after_context: ProcessContext,
        next: ProcessId,
    ) -> bool {
        &&& *self == (ProcessManager {
            processes: self.processes,
            ready_queue: self.ready_queue,
            current: self.current,
            ..*before
        })
        &&& next == self.current
        &&& self.ready_queue@ =~= (if before.ready_queue@.len() > 0 {
            before.ready_queue@.drop_first()
        } else {
            before.ready_queue@
        })
        &&& before.next_is_ready() ==> {
            &&& next == before.ready_queue@[0]
            &&& after_context == before.proc(next).inner.context
            &&& self.processes@ =~= before.processes@.insert(
                next.0,
                Process {
                    pid: next,
                    inner: ProcessInner {
                        status: ProgramStatus::Running,
                        ..before.proc(next).inner
                    },
                },
            )
        }
        &&& !before.next_is_ready() ==> {
            &&& next == before.current
            &&& after_context == before_context
            &&& self.processes@ =~= before.processes@
        }
    }

    /// Takes the head of the ready queue and lets it run.
    ///
    /// When the head names a process that is `Ready`, its saved registers
    /// are written into `context`, it becomes `Running` and the current
    /// process, and its identifier is returned. A head that names no such
    /// process is dropped, and the current process stays the current one;
    /// so it does when the queue is empty.
    pub fn switch_next(&mut self, context: &mut ProcessContext) -> (next: ProcessId)
        requires
            old(self).wf(),
        ensures
            final(self).wf(),
            final(self).did_switch_next(old(self), *old(context), *final(context), next),
    {
        match self.ready_queue.pop_front() {
            Some(next_pid) => {
                assert(self.ready_queue@ =~= old(self).ready_queue@.drop_first());
                match self.processes.remove(&next_pid.0) {
                    Some(process) => {
                        assert(old(self).entry_wf(next_pid.0));
                        let mut process = process;
                        if process.inner.status() == ProgramStatus::Ready {
                            process.inner.restore(context);
                            self.processes.insert(next_pid.0, process);
                            self.current = next_pid;
                            assert forall|k: u16| #[trigger]
                                self.processes@.contains_key(k) implies self.entry_wf(k) by {
                                if k != next_pid.0 {
                                    assert(old(self).entry_wf(k));
                                }
                            }
                            return next_pid;
                        }
                        self.processes.insert(next_pid.0, process);
                        assert(self.processes@ =~= old(self).processes@);
                    },
                    None => {
                        assert(self.processes@ =~= old(self).processes@);
                    },
                }
            },
            None => {},
        }
        self.current
    }

    /// The process table once `pid` has been killed with `ret`, before
    /// anybody is woken.
    pub open spec fn table_with_dead(&self, pid: ProcessId, ret: isize) -> ProcessTable {
        self.processes@.insert(
            pid.0,
            Process { pid: self.proc(pid).pid, inner: self.proc(pid).inner.killed(ret) },
        )
    }

    /// True when `kill(pid, ..)` has something to do: `pid` names a process
    /// that is alive.
    pub open spec fn can_kill(&self, pid: ProcessId) -> bool {
        self.has(pid) && !(self.proc(pid).inner.status is Dead)
    }

    /// True when this state is `before` after `kill(pid, ret)`.
    pub open spec fn did_kill(&self, before: &ProcessManager, pid: ProcessId, ret: isize) -> bool {
        &&& !before.can_kill(pid) ==> *self == *before
        &&& before.has(pid) ==> self.has(pid) && self.proc(pid).inner.status is Dead
        &&& before.can_kill(pid) ==> {
            let group = before.proc(pid).inner.proc_vm->0.group as int;
            let waiters = before.waiters(pid);
            &&& self.proc(pid).inner == before.proc(pid).inner.killed(ret)
            &&& self.processes@ =~= table_after_wakes(
                before.table_with_dead(pid, ret),
                waiters,
                Some(ret),
                waiters.len(),
            )
            &&& self.ready_queue@ =~= queue_after_wakes(
                before.table_with_dead(pid, ret),
                before.ready_queue@,
                waiters,
                Some(ret),
                waiters.len(),
            )
            &&& self.wait_queue@ =~= before.wait_queue@.remove(pid.0)
            &&& self.groups.len() == before.groups.len()
            &&& is_after_exit(
                self.groups[group],
                before.groups[group],
                before.proc(pid).inner.proc_vm,
            )
            &&& forall|g: int|
                0 <= g < before.groups.len() && g != group ==> self.groups[g] == before.groups[g]
            &&& self.frames.total() == before.frames.total()
            &&& self.frames.in_use() == in_use_after_exit(
                before.groups[group],
                before.proc(pid).inner.proc_vm,
                before.frames.in_use(),
            )
            &&& self.current == before.current
            &&& self.pids == before.pids
            &&& self.app_list == before.app_list
            &&& self.selectors == before.selectors
        }
    }

    /// Ends the process `pid` with exit code `ret`.
    ///
    /// A process that is alive becomes `Dead` with that exit code and gives
    /// back its memory, see [`ProcessGroup::kill_member`]. Then all who wait
    /// for its exit are woken, longest-waiting first, each with `ret` as the
    /// value that its wait returns, and the list of those waiting is
    /// dropped. Killing a dead process, or one that does not exist, changes
    /// nothing.
    pub fn kill(&mut self, pid: ProcessId, ret: isize)
        requires
            old(self).wf(),
        ensures
            final(self).wf(),
            final(self).did_kill(old(self), pid, ret),
    {
        let alive: bool = match self.processes.get(&pid.0) {
            Some(process) => process.inner.status() != ProgramStatus::Dead,
            None => false,
        };
        if !alive {
            return ;
        }
        assert(old(self).entry_wf(pid.0));
        let mut process: Process = match self.processes.remove(&pid.0) {
            Some(process) => process,
            None => {
                return ;
            },
        };
        let group: usize = match process.inner.group() {
            Some(group) => group,
            None => {
                self.processes.insert(pid.0, process);
                return ;
            },
        };
        self.groups[group].kill_member(&mut process, ret, &mut self.frames);
        self.processes.insert(pid.0, process);
        let waiting: Vec<ProcessId> = match self.wait_queue.remove(&pid.0) {
            Some(waiting) => waiting,
            None => Vec::new(),
        };
        let ghost dead = old(self).table_with_dead(pid, ret);
        let ghost queue = old(self).ready_queue@;
        assert(self.processes@ =~= dead);
        assert(waiting@ == old(self).waiters(pid));
        assert(self.wf()) by {
            assert forall|k: u16| #[trigger] self.processes@.contains_key(k) implies self.entry_wf(
                k,
            ) by {
                if k != pid.0 {
                    assert(old(self).entry_wf(k));
                }
            }
            assert forall|g: int| 0 <= g < self.groups.len() implies (#[trigger] self.groups[g]).wf()
                && self.groups[g].members < self.pids.next() by {
                assert(old(self).groups[g].wf());
            }
        }
        let ghost after_kill = *self;
        let mut i: usize = 0;
        while i < waiting.len()
            invariant
                i <= waiting.len(),
                self.wf(),
                *self == (ProcessManager {
                    processes: self.processes,
                    ready_queue: self.ready_queue,
                    ..after_kill
                }),
                self.processes@ == table_after_wakes(dead, waiting@, Some(ret), i as nat),
                self.ready_queue@ == queue_after_wakes(dead, queue, waiting@, Some(ret), i as nat),
            decreases waiting.len() - i,
        {
            self.wake_up(waiting[i], Some(ret));
            i = i + 1;
        }
        proof {
            lemma_wakes_keep_dead(dead, waiting@, Some(ret), waiting@.len(), pid.0);
        }
    }

    /// Ends the current process with exit code `ret`; see [`Self::kill`].
    pub fn kill_current(&mut self, ret: isize)
        requires
            old(self).wf(),
        ensures
            final(self).wf(),
            final(self).did_kill(old(self), old(self).current, ret),
            final(self).current == old(self).current,
            final(self).proc(final(self).current).inner.status is Dead,
    {
        let current: ProcessId = self.current;
        self.kill(current, ret);
    }

    /// True when a page fault of the current process at `addr` with the
    /// error code `err_code` can be resolved: the fault is not a protection
    /// violation, the process is alive, the address lies in the slot of its
    /// stack, and the pages that the stack lacks down to the faulting page
    /// are free and can get frames.
    pub open spec fn fault_resolvable(&self, addr: u64, err_code: u64) -> bool {
        let vm = self.proc(self.current).inner.proc_vm;
        &&& err_code % 2 == 0
        &&& vm matches Some(vm)
        &&& vm.stack.on_stack(addr)
        &&& range_free(self.groups[vm.group as int].page_table@, page_of(addr), vm.stack.missing(addr))
        &&& vm.stack.missing(addr) <= self.frames.available()
    }

    /// True when this state is `before` after `handle_page_fault(addr, err_code)`
    /// with the result `handled`.
    pub open spec fn did_handle_page_fault(
        &self,
        before: &ProcessManager,
        addr: u64,
        err_code: u64,
        handled: bool,
    ) -> bool {
        &&& handled == before.fault_resolvable(addr, err_code)
        &&& !handled ==> self.same_as(before)
        &&& handled ==> {
            let pid = before.current;
            let vm = before.proc(pid).inner.proc_vm->0;
            let group = vm.group as int;
            let missing = vm.stack.missing(addr);
            &&& self.same_but(before, group)
            &&& self.ready_queue@ =~= before.ready_queue@
            &&& self.pids == before.pids
            &&& self.processes@ =~= before.processes@.insert(
                pid.0,
                self.proc(pid),
            )
            &&& self.proc(pid).pid == pid
            &&& self.proc(pid).inner == (ProcessInner {
                proc_vm: self.proc(pid).inner.proc_vm,
                ..before.proc(pid).inner
            })
            &&& self.proc(pid).inner.proc_vm is Some
            &&& self.proc(pid).inner.proc_vm->0.group == vm.group
            &&& self.proc(pid).inner.proc_vm->0.stack.range().end == vm.stack.range().end
            &&& self.proc(pid).inner.proc_vm->0.stack.range().start
                == vm.stack.range().start - missing
            &&& self.groups[group].page_table@ =~= with_range(
                before.groups[group].page_table@,
                page_of(addr),
                missing,
                pid.0 != KERNEL_PID,
            )
            &&& self.groups[group].heap == before.groups[group].heap
            &&& self.groups[group].data == before.groups[group].data
            &&& self.groups[group].members == before.groups[group].members
            &&& self.frames.in_use() == before.frames.in_use() + missing
        }
    }

    /// Answers a page fault of the current process.
    ///
    /// A fault that reports a protection violation is refused at once.
    /// Otherwise the stack of the current process grows down to the
    /// faulting page, see [`Stack::handle_page_fault`](stack::Stack::handle_page_fault);
    /// the new pages are for user access unless the current process is the
    /// kernel's. The result is true when the fault was resolved; when it is
    /// false, nothing has changed.
    pub fn handle_page_fault(&mut self, addr: u64, err_code: u64) -> (handled: bool)
        requires
            old(self).wf(),
        ensures
            final(self).wf(),
            final(self).did_handle_page_fault(old(self), addr, err_code, handled),
    {
        if is_protection_violation(err_code) {
            return false;
        }
        let current: ProcessId = self.current;
        assert(old(self).entry_wf(current.0));
        let group: usize = match self.processes.get(&current.0) {
            Some(process) => match process.inner.group() {
                Some(group) => group,
                None => {
                    return false;
                },
            },
            None => {
                return false;
            },
        };
        let mut process: Process = match self.processes.remove(&current.0) {
            Some(process) => process,
            None => {
                return false;
            },
        };
        let user_access: bool = current.0 != KERNEL_PID;
        let handled: bool = self.groups[group].page_fault(
            &mut process,
            addr,
            &mut self.frames,
            user_access,
        );
        self.processes.insert(current.0, process);
        proof {
            if !handled {
                assert(self.processes@ =~= old(self).processes@);
            }
            assert forall|k: u16| #[trigger] self.processes@.contains_key(k) implies self.entry_wf(
                k,
            ) by {
                if k != current.0 {
                    assert(old(self).entry_wf(k));
                }
            }
            assert forall|g: int| 0 <= g < self.groups.len() implies (#[trigger] self.groups[g]).wf()
                && self.groups[g].members < self.pids.next() by {
                assert(old(self).groups[g].wf());
            }
        }
        handled
    }

    /// How a fork of the current process ends: with the first page of the
    /// child's stack, or with the reason why the stack cannot be copied.
    pub open spec fn fork_outcome(&self) -> Result<u64, stack::StackError> {
        let parent = self.proc(self.current);
        let vm = parent.inner.proc_vm->0;
        stack::fork_outcome(
            vm.stack,
            self.groups[vm.group as int].page_table@,
            self.frames.available(),
            (parent.inner.children.len() + 1) as u64,
        )
    }

    /// True when the current process can be forked: it is alive, an
    /// identifier is left for the child, and its stack can be copied.
    pub open spec fn can_fork(&self) -> bool {
        &&& !(self.proc(self.current).inner.status is Dead)
        &&& self.pids.next() < 0x1_0000
        &&& self.fork_outcome() is Ok
    }

    /// True when this state is `before` after `fork()` with the result `child`.
    pub open spec fn did_fork(&self, before: &ProcessManager, child: Option<ProcessId>) -> bool {
        &&& child is Some <==> before.can_fork()
        &&& child is None ==> self.same_as(before)
        &&& child matches Some(child_pid) ==> {
            let pid = before.current;
            let parent = before.proc(pid);
            let group = parent.inner.proc_vm->0.group as int;
            &&& child_pid.0 as nat == before.pids.next()
            &&& self.pids.next() == before.pids.next() + 1
            &&& !before.has(child_pid)
            &&& self.same_but(before, group)
            &&& self.processes@ =~= before.processes@.insert(
                pid.0,
                self.proc(pid),
            ).insert(child_pid.0, self.proc(child_pid))
            &&& is_after_fork(self.proc(pid), parent, child_pid)
            &&& self.proc(child_pid).pid == child_pid
            &&& is_child_of(self.proc(child_pid), parent)
            &&& stack::is_fork_of(
                self.proc(child_pid).inner.proc_vm->0.stack,
                parent.inner.proc_vm->0.stack,
                before.groups[group].page_table@,
                self.groups[group].page_table@,
            )
            &&& self.ready_queue@ =~= before.ready_queue@.push(child_pid)
            &&& self.groups[group].heap == before.groups[group].heap
            &&& self.groups[group].data == before.groups[group].data
            &&& self.groups[group].members == before.groups[group].members + 1
            &&& self.frames.in_use() == before.frames.in_use()
                + parent.inner.proc_vm->0.stack.usage()
        }
    }

    /// Forks the current process and returns the child's identifier.
    ///
    /// The child is a copy of the current process under the next
    /// identifier: the same group, a stack of its own that holds the
    /// parent's bytes, the parent's saved registers moved to that stack.
    /// The child finds zero in its return-value register, the parent the
    /// child's identifier. The child is filed in the table, listed as the
    /// parent's last child and put at the tail of the ready queue.
    /// Returns `None`, with nothing changed, when the current process cannot
    /// be forked.
    pub fn fork(&mut self) -> (child: Option<ProcessId>)
        requires
            old(self).wf(),
        ensures
            final(self).wf(),
            final(self).did_fork(old(self), child),
    {
        let current: ProcessId = self.current;
        assert(old(self).entry_wf(current.0));
        let group: usize = match self.processes.get(&current.0) {
            Some(process) => match process.inner.group() {
                Some(group) => group,
                None => {
                    return None;
                },
            },
            None => {
                return None;
            },
        };
        if self.pids.is_exhausted() {
            return None;
        }
        let mut process: Process = match self.processes.remove(&current.0) {
            Some(process) => process,
            None => {
                return None;
            },
        };
        let forked = self.groups[group].fork_member(&mut process, &mut self.pids, &mut self.frames);
        self.processes.insert(current.0, process);
        match forked {
            Ok(child) => {
                let child_pid: ProcessId = child.pid();
                assert(!old(self).has(child_pid)) by {
                    if old(self).has(child_pid) {
                        assert(old(self).entry_wf(child_pid.0));
                    }
                }
                self.add_proc(child_pid, child);
                self.push_ready(child_pid);
                proof {
                    assert forall|k: u16| #[trigger]
                        self.processes@.contains_key(k) implies self.entry_wf(k) by {
                        if k != current.0 && k != child_pid.0 {
                            assert(old(self).entry_wf(k));
                        }
                    }
                    assert forall|g: int| 0 <= g < self.groups.len() implies (
                    #[trigger] self.groups[g]).wf() && self.groups[g].members < self.pids.next() by {
                        assert(old(self).groups[g].wf());
                    }
                    assert(self.processes@ =~= old(self).processes@.insert(
                        current.0,
                        self.proc(current),
                    ).insert(child_pid.0, self.proc(child_pid)));
                }
                Some(child_pid)
            },
            Err(_) => {
                proof {
                    assert(self.processes@ =~= old(self).processes@);
                    assert forall|g: int| 0 <= g < self.groups.len() implies (
                    #[trigger] self.groups[g]).wf() && self.groups[g].members < self.pids.next() by {
                        assert(old(self).groups[g].wf());
                    }
                    assert forall|g: int| 0 <= g < self.groups.len() implies (
                    #[trigger] self.groups[g]).same_as(&old(self).groups[g]) by {}
                }
                None
            },
        }
    }

    /// What loading `image` into a fresh copy of the kernel's page table
    /// leads to: first the initial stack page, then the segments.
    pub open spec fn spawn_load(&self, image: &ExecutableImage) -> LoadState {
        load_segments(
            self.groups[0].page_table@.insert(0x3_FFFF_FFFF, fresh_page(true)),
            self.frames.available() - 1,
            image.segments@,
            image.segments@.len(),
        )
    }

    /// True when `image` can be spawned: an identifier is left, the page for
    /// the initial stack is free in the kernel's page table and can get a
    /// frame, and every segment can be mapped.
    pub open spec fn can_spawn(&self, image: &ExecutableImage) -> bool {
        &&& self.pids.next() < 0x1_0000
        &&& !self.groups[0].page_table@.contains_key(0x3_FFFF_FFFF)
        &&& self.frames.available() >= 1
        &&& self.spawn_load(image).ok
    }

    /// True when this state is `before` after `spawn(image, name, parent,
    /// proc_data)` with the result `spawned`.
    pub open spec fn did_spawn(
        &self,
        before: &ProcessManager,
        image: &ExecutableImage,
        name: String,
        parent: Option<ProcessId>,
        proc_data: Option<ProcessData>,
        spawned: Option<ProcessId>,
    ) -> bool {
        &&& spawned is Some <==> before.can_spawn(image)
        &&& spawned is None ==> self.same_as(before)
        &&& spawned matches Some(pid) ==> {
            let group = before.groups.len() as int;
            let process = self.proc(pid);
            &&& pid.0 as nat == before.pids.next()
            &&& self.pids.next() == before.pids.next() + 1
            &&& !before.has(pid)
            &&& self.processes@ =~= before.processes@.insert(pid.0, process)
            &&& self.ready_queue@ =~= before.ready_queue@.push(pid)
            &&& self.wait_queue@ =~= before.wait_queue@
            &&& self.app_list == before.app_list
            &&& self.current == before.current
            &&& self.selectors == before.selectors
            &&& self.groups.len() == group + 1
            &&& forall|g: int| 0 <= g < group ==> self.groups[g] == before.groups[g]
            &&& self.groups[group].page_table@ =~= before.spawn_load(image).mappings
            &&& self.groups[group].heap.end() == super::vm::heap::HEAP_START
            &&& self.groups[group].members == 1
            &&& self.groups[group].data == (match proc_data {
                Some(data) => data,
                None => self.groups[group].data,
            })
            &&& proc_data is None ==> self.groups[group].data.resources@ =~= super::data::standard_descriptors()
            &&& proc_data is None ==> self.groups[group].data.semaphores@ =~= Map::<
                u32,
                super::sync::SemState,
            >::empty()
            &&& proc_data is None ==> super::data::env_of(self.groups[group].data.env@) =~= Seq::<
                (Seq<char>, Seq<char>),
            >::empty()
            &&& self.frames.total() == before.frames.total()
            &&& self.frames.available() == before.spawn_load(image).available
            &&& process.pid == pid
            &&& process.inner.name@ == lowercase(name@)
            &&& process.inner.parent == parent
            &&& process.inner.children@ == Seq::<ProcessId>::empty()
            &&& process.inner.ticks_passed == 0
            &&& process.inner.status == ProgramStatus::Ready
            &&& process.inner.exit_code is None
            &&& process.inner.context == ProcessContext::zero().started(
                image.entry_point,
                STACK_INIT_TOP,
                before.selectors,
            )
            &&& process.inner.proc_vm is Some
            &&& process.inner.proc_vm->0.group == group
            &&& process.inner.proc_vm->0.stack.range().start == 0x3_FFFF_FFFF
            &&& process.inner.proc_vm->0.stack.range().end == 0x4_0000_0000
        }
    }

    /// Creates a process from an executable and returns its identifier.
    ///
    /// The process founds a group of its own, whose page table starts as a
    /// copy of the kernel's and then receives the first page of the stack
    /// and the segments of `image`. The process gets the next identifier,
    /// the name in lower case, `parent` as its parent, and registers set to
    /// start at the image's entry point with the stack pointer at
    /// `STACK_INIT_TOP`. It is `Ready`, filed in the table and put at the
    /// tail of the ready queue. The group holds `proc_data`, or the standard
    /// descriptors and no semaphores without it.
    /// Returns `None`, with nothing changed, when the image cannot be
    /// spawned.
    pub fn spawn(
        &mut self,
        image: &ExecutableImage,
        name: String,
        parent: Option<ProcessId>,
        proc_data: Option<ProcessData>,
    ) -> (spawned: Option<ProcessId>)
        requires
            old(self).wf(),
        ensures
            final(self).wf(),
            final(self).did_spawn(old(self), image, name, parent, proc_data, spawned),
    {
        if self.pids.is_exhausted() {
            return None;
        }
        assert(old(self).groups[0].wf());
        let page_table = self.groups[0].page_table.clone_level_4();
        let data: ProcessData = match proc_data {
            Some(data) => data,
            None => ProcessData::new(),
        };
        let mut group = ProcessGroup::new(page_table, data);
        let mut vm = ProcessVm::new(self.groups.len());
        let before: u64 = self.frames.frames_available();
        if vm.stack.init(&mut group.page_table, &mut self.frames).is_err() {
            proof {
                assert forall|g: int| 0 <= g < self.groups.len() implies (
                #[trigger] self.groups[g]).same_as(&old(self).groups[g]) by {}
            }
            return None;
        }
        if vm.load_elf(image, &mut group.page_table, &mut self.frames).is_err() {
            let after: u64 = self.frames.frames_available();
            proof {
                super::vm::lemma_load_takes_frames(
                    old(self).groups[0].page_table@.insert(0x3_FFFF_FFFF, fresh_page(true)),
                    old(self).frames.available() - 1,
                    image.segments@,
                    image.segments@.len(),
                );
            }
            self.frames.deallocate(before - after);
            proof {
                assert forall|g: int| 0 <= g < self.groups.len() implies (
                #[trigger] self.groups[g]).same_as(&old(self).groups[g]) by {}
            }
            return None;
        }
        let mut process = Process::new(name, parent, vm, &mut self.pids);
        process.inner.init_stack_frame(image.entry_point, STACK_INIT_TOP, self.selectors);
        process.inner.pause();
        group.members = 1;
        self.groups.push(group);
        let pid: ProcessId = process.pid();
        assert(!old(self).has(pid)) by {
            if old(self).has(pid) {
                assert(old(self).entry_wf(pid.0));
            }
        }
        self.add_proc(pid, process);
        self.push_ready(pid);
        proof {
            assert forall|k: u16| #[trigger] self.processes@.contains_key(k) implies self.entry_wf(
                k,
            ) by {
                if k != pid.0 {
                    assert(old(self).entry_wf(k));
                }
            }
            assert forall|g: int| 0 <= g < self.groups.len() implies (#[trigger] self.groups[g]).wf()
                && self.groups[g].members < self.pids.next() by {
                if g < old(self).groups.len() {
                    assert(old(self).groups[g].wf());
                    assert(self.groups[g] == old(self).groups[g]);
                }
            }
        }
        Some(pid)
    }

    /// The state of process management with `init` as its first and current
    /// process, in the kernel's group.
    pub fn new(
        init: Process,
        app_list: Vec<App>,
        kernel_group: ProcessGroup,
        frames: FrameAllocator,
        pids: PidAllocator,
        selectors: Selectors,
    ) -> (manager: ProcessManager)
        requires
            init.wf(),
            init.pid.0 < pids.next(),
            init.inner.children.len() < pids.next(),
            init.inner.proc_vm matches Some(vm) ==> vm.group == 0,
            kernel_group.wf(),
            kernel_group.members < pids.next(),
            frames.wf(),
        ensures
            manager.wf(),
            manager.processes@ == Map::<u16, Process>::empty().insert(init.pid.0, init),
            manager.ready_queue@ == Seq::<ProcessId>::empty(),
            manager.wait_queue@ == Map::<u16, Vec<ProcessId>>::empty(),
            manager.app_list == app_list,
            manager.groups@ == seq![kernel_group],
            manager.frames == frames,
            manager.pids == pids,
            manager.current == init.pid,
            manager.selectors == selectors,
    {
        let mut processes: BTreeMap<u16, Process> = BTreeMap::new();
        let pid: ProcessId = init.pid();
        processes.insert(pid.0, init);
        let mut groups: Vec<ProcessGroup> = Vec::new();
        groups.push(kernel_group);
        let manager = ProcessManager {
            processes,
            ready_queue: VecDeque::new(),
            wait_queue: BTreeMap::new(),
            app_list,
            groups,
            frames,
            pids,
            current: pid,
            selectors,
        };
        assert(manager.groups@ =~= seq![kernel_group]);
        manager
    }

    /// True when this state is `before` after `set_return_value(pid, ret)`.
    pub open spec fn did_set_return_value(
        &self,
        before: &ProcessManager,
        pid: ProcessId,
        ret: isize,
    ) -> bool {
        &&& *self == (ProcessManager { processes: self.processes, ..*before })
        &&& self.processes@ =~= (if before.has(pid) {
        before.processes@.insert(
            pid.0,
            Process {
                pid: before.proc(pid).pid,
                inner: before.proc(pid).inner.with_return_value(ret),
            },
        )
        } else {
        before.processes@
        })
    }

    /// Puts `ret` into the saved return-value register of the process
    /// `pid`: it finds the value there when it runs again. Nothing happens
    /// for an identifier that names no process.
    pub fn set_return_value(&mut self, pid: ProcessId, ret: isize)
        requires
            old(self).wf(),
        ensures
            final(self).wf(),
            final(self).did_set_return_value(old(self), pid, ret),
    {
        match self.processes.remove(&pid.0) {
            Some(process) => {
                assert(old(self).entry_wf(pid.0));
                let mut process = process;
                process.inner.set_return_value(ret);
                self.processes.insert(pid.0, process);
                assert forall|k: u16| #[trigger]
                    self.processes@.contains_key(k) implies self.entry_wf(k) by {
                    if k != pid.0 {
                        assert(old(self).entry_wf(k));
                    }
                }
            },
            None => {
                assert(self.processes@ =~= old(self).processes@);
            },
        }
    }

    /// The group of the current process; `None` when that process is dead.
    pub open spec fn current_group(&self) -> Option<int> {
        match self.proc(self.current).inner.proc_vm {
            Some(vm) => Some(vm.group as int),
            None => None,
        }
    }

    /// The semaphores that the current process works with: those of its
    /// group, and none when it is dead.
    pub open spec fn semaphores(&self) -> SemStates {
        match self.current_group() {
            Some(g) => self.groups[g].data.semaphores@,
            None => Map::empty(),
        }
    }

    /// The environment that the current process works with: that of its
    /// group, and an empty one when it is dead.
    pub open spec fn environment(&self) -> super::data::Environment {
        match self.current_group() {
            Some(g) => super::data::env_of(self.groups[g].data.env@),
            None => Seq::empty(),
        }
    }

    /// The descriptors that the current process works with: those of its
    /// group, and none when it is dead.
    pub open spec fn descriptors(&self) -> Descriptors {
        match self.current_group() {
            Some(g) => self.groups[g].data.resources@,
            None => Map::empty(),
        }
    }

    /// True when this state differs from `other` at most in the
    /// descriptors and semaphores of the current process's group.
    pub open spec fn same_but_data(&self, other: &ProcessManager) -> bool {
        &&& self.processes == other.processes
        &&& self.ready_queue == other.ready_queue
        &&& self.wait_queue == other.wait_queue
        &&& self.app_list == other.app_list
        &&& self.frames == other.frames
        &&& self.pids == other.pids
        &&& self.current == other.current
        &&& self.selectors == other.selectors
        &&& self.groups.len() == other.groups.len()
        &&& forall|g: int|
            0 <= g < self.groups.len() && Some(g) != other.current_group() ==> (
            #[trigger] self.groups[g]) == other.groups[g]
        &&& other.current_group() matches Some(g) ==> {
            &&& self.groups[g].page_table == other.groups[g].page_table
            &&& self.groups[g].heap == other.groups[g].heap
            &&& self.groups[g].members == other.groups[g].members
        }
    }

    /// The number of the current process's group; `None` when it is dead.
    fn group_of_current(&self) -> (group: Option<usize>)
        requires
            self.wf(),
        ensures
            group matches Some(g) ==> self.current_group() == Some(g as int) && g < self.groups.len(),
            group is None ==> self.current_group() is None,
    {
        assert(self.entry_wf(self.current.0));
        match self.processes.get(&self.current.0) {
            Some(process) => process.inner.group(),
            None => None,
        }
    }

    /// Proves that a change to one group's data keeps the state consistent.
    proof fn lemma_data_change_keeps_wf(&self, before: &ProcessManager)
        requires
            before.wf(),
            self.same_but_data(before),
        ensures
            self.wf(),
    {
        assert forall|k: u16| #[trigger] self.processes@.contains_key(k) implies self.entry_wf(k) by {
            assert(before.entry_wf(k));
        }
        assert forall|g: int| 0 <= g < self.groups.len() implies (#[trigger] self.groups[g]).wf()
            && self.groups[g].members < self.pids.next() by {
            assert(before.groups[g].wf());
        }
    }

    /// True when this state is `before` after `new_sem(key, value)` with the
    /// result `added`.
    pub open spec fn did_new_sem(
        &self,
        before: &ProcessManager,
        key: u32,
        value: usize,
        added: bool,
    ) -> bool {
        &&& self.same_but_data(before)
        &&& self.descriptors() =~= before.descriptors()
        &&& added == (before.current_group() is Some && !before.semaphores().contains_key(key))
        &&& self.semaphores() =~= (if added {
            before.semaphores().insert(key, SemState::init(value as nat))
        } else {
            before.semaphores()
        })
    }

    /// Creates a semaphore that starts at `value` under `key` for the
    /// current process. Returns false, changing nothing, when the key is
    /// taken or the process is dead.
    pub fn new_sem(&mut self, key: u32, value: usize) -> (added: bool)
        requires
            old(self).wf(),
        ensures
            final(self).wf(),
            final(self).did_new_sem(old(self), key, value, added),
    {
        let added: bool = match self.group_of_current() {
            Some(group) => self.groups[group].data.semaphores.insert(key, value),
            None => false,
        };
        proof {
            self.lemma_data_change_keeps_wf(old(self));
        }
        added
    }

    /// True when this state is `before` after `remove_sem(key)` with the result
    /// `removed`.
    pub open spec fn did_remove_sem(
        &self,
        before: &ProcessManager,
        key: u32,
        removed: bool,
    ) -> bool {
        &&& self.same_but_data(before)
        &&& self.descriptors() =~= before.descriptors()
        &&& removed == before.semaphores().contains_key(key)
        &&& self.semaphores() =~= before.semaphores().remove(key)
    }

    /// Removes the semaphore under `key` of the current process. Returns
    /// false, changing nothing, when there is none or the process is dead.
    pub fn remove_sem(&mut self, key: u32) -> (removed: bool)
        requires
            old(self).wf(),
        ensures
            final(self).wf(),
            final(self).did_remove_sem(old(self), key, removed),
    {
        let removed: bool = match self.group_of_current() {
            Some(group) => self.groups[group].data.semaphores.remove(key),
            None => {
                assert(self.semaphores() =~= old(self).semaphores().remove(key));
                false
            },
        };
        proof {
            self.lemma_data_change_keeps_wf(old(self));
        }
        removed
    }

    /// True when this state is `before` after `sem_wait(key, pid)` with the
    /// result `result`.
    pub open spec fn did_sem_wait(
        &self,
        before: &ProcessManager,
        key: u32,
        pid: ProcessId,
        result: SemaphoreResult,
    ) -> bool {
        &&& self.same_but_data(before)
        &&& self.descriptors() =~= before.descriptors()
        &&& self.semaphores() =~= set_wait(before.semaphores(), key, pid).0
        &&& result == set_wait(before.semaphores(), key, pid).1
    }

    /// Down on the semaphore `key` of the current process, for the process
    /// `pid`; see [`set_wait`]. `NotExist` when the current process is dead.
    pub fn sem_wait(&mut self, key: u32, pid: ProcessId) -> (result: SemaphoreResult)
        requires
            old(self).wf(),
        ensures
            final(self).wf(),
            final(self).did_sem_wait(old(self), key, pid, result),
    {
        let result: SemaphoreResult = match self.group_of_current() {
            Some(group) => self.groups[group].data.semaphores.wait(key, pid),
            None => SemaphoreResult::NotExist,
        };
        proof {
            self.lemma_data_change_keeps_wf(old(self));
        }
        result
    }

    /// True when a `sem_wait(key, ..)` would put its caller into the queue:
    /// the semaphore exists and its count is zero.
    pub fn would_block(&self, key: u32) -> (blocks: bool)
        requires
            self.wf(),
        ensures
            blocks == (set_wait(self.semaphores(), key, self.current).1 is Block),
    {
        match self.group_of_current() {
            Some(group) => self.groups[group].data.semaphores.is_zero(key),
            None => false,
        }
    }

    /// True when `sem_signal(key)` may be called: see [`set_can_signal`].
    pub fn can_signal(&self, key: u32) -> (b: bool)
        requires
            self.wf(),
        ensures
            b == set_can_signal(self.semaphores(), key),
    {
        match self.group_of_current() {
            Some(group) => self.groups[group].data.semaphores.can_signal(key),
            None => true,
        }
    }

    /// True when this state is `before` after `sem_signal(key)` with the result
    /// `result`.
    pub open spec fn did_sem_signal(
        &self,
        before: &ProcessManager,
        key: u32,
        result: SemaphoreResult,
    ) -> bool {
        &&& self.same_but_data(before)
        &&& self.descriptors() =~= before.descriptors()
        &&& self.semaphores() =~= set_signal(before.semaphores(), key).0
        &&& result == set_signal(before.semaphores(), key).1
    }

    /// Up on the semaphore `key` of the current process; see
    /// [`set_signal`]. `NotExist` when the current process is dead.
    pub fn sem_signal(&mut self, key: u32) -> (result: SemaphoreResult)
        requires
            old(self).wf(),
            set_can_signal(old(self).semaphores(), key),
        ensures
            final(self).wf(),
            final(self).did_sem_signal(old(self), key, result),
    {
        let result: SemaphoreResult = match self.group_of_current() {
            Some(group) => self.groups[group].data.semaphores.signal(key),
            None => SemaphoreResult::NotExist,
        };
        proof {
            self.lemma_data_change_keeps_wf(old(self));
        }
        result
    }

    /// True when this state is `before` after `open(res)` with the result `fd`.
    pub open spec fn did_open(
        &self,
        before: &ProcessManager,
        res: Resource,
        fd: Option<u8>,
    ) -> bool {
        &&& self.same_but_data(before)
        &&& self.semaphores() =~= before.semaphores()
        &&& fd is None <==> before.current_group() is None || descriptors_full(
            before.descriptors(),
        )
        &&& fd is None ==> self.descriptors() =~= before.descriptors()
        &&& fd matches Some(n) ==> lowest_free(before.descriptors(), n)
        &&& fd matches Some(n) ==> self.descriptors() =~= before.descriptors().insert(
            n,
            res,
        )
    }

    /// Opens `res` for the current process under the lowest free
    /// descriptor and returns that descriptor. `None`, with nothing
    /// changed, when all descriptors are in use or the process is dead.
    pub fn open(&mut self, res: Resource) -> (fd: Option<u8>)
        requires
            old(self).wf(),
        ensures
            final(self).wf(),
            final(self).did_open(old(self), res, fd),
    {
        let fd: Option<u8> = match self.group_of_current() {
            Some(group) => self.groups[group].data.resources.open(res),
            None => None,
        };
        proof {
            self.lemma_data_change_keeps_wf(old(self));
        }
        fd
    }

    /// True when this state is `before` after `close(fd)` with the result
    /// `closed`.
    pub open spec fn did_close(&self, before: &ProcessManager, fd: u8, closed: bool) -> bool {
        &&& self.same_but_data(before)
        &&& self.semaphores() =~= before.semaphores()
        &&& closed == before.descriptors().contains_key(fd)
        &&& self.descriptors() =~= before.descriptors().remove(fd)
    }

    /// Closes the descriptor `fd` of the current process. Returns false,
    /// changing nothing, when it is not open or the process is dead.
    pub fn close(&mut self, fd: u8) -> (closed: bool)
        requires
            old(self).wf(),
        ensures
            final(self).wf(),
            final(self).did_close(old(self), fd, closed),
    {
        let closed: bool = match self.group_of_current() {
            Some(group) => self.groups[group].data.resources.close(fd),
            None => {
                assert(self.descriptors() =~= old(self).descriptors().remove(fd));
                false
            },
        };
        proof {
            self.lemma_data_change_keeps_wf(old(self));
        }
        closed
    }

    /// The value of the variable `key` in the environment of the current
    /// process; `None` when there is no such variable.
    pub fn env(&self, key: &String) -> (value: Option<String>)
        requires
            self.wf(),
        ensures
            match value {
                Some(v) => super::data::lookup(self.environment(), key@) == Some(v@),
                None => super::data::lookup(self.environment(), key@) is None,
            },
    {
        match self.group_of_current() {
            Some(group) => self.groups[group].data.env(key),
            None => None,
        }
    }

    /// What the descriptor `fd` of the current process stands for; `None`
    /// when it is not open.
    pub fn resource(&self, fd: u8) -> (res: Option<Resource>)
        requires
            self.wf(),
        ensures
            res == (if self.descriptors().contains_key(fd) {
                Some(self.descriptors()[fd])
            } else {
                None
            }),
    {
        match self.group_of_current() {
            Some(group) => self.groups[group].data.resources.get(fd),
            None => None,
        }
    }

    /// True when this state is `before` after `brk(new_end)` with the result
    /// `result`.
    pub open spec fn did_brk(
        &self,
        before: &ProcessManager,
        new_end: Option<u64>,
        result: Option<u64>,
    ) -> bool {
        &&& before.current_group() is None ==> result is None && self.same_as(before)
        &&& before.current_group() matches Some(g) ==> {
            let end = before.groups[g].heap.end();
            let m = before.groups[g].page_table@;
            let available = before.frames.available();
            &&& self.same_but(before, g)
            &&& self.processes == before.processes
            &&& self.ready_queue == before.ready_queue
            &&& self.pids == before.pids
            &&& self.groups[g].data == before.groups[g].data
            &&& self.groups[g].members == before.groups[g].members
            &&& result == brk_result(end, m, available, new_end)
            &&& self.groups[g].heap.end() == brk_end(end, m, available, new_end)
            &&& self.groups[g].page_table@ =~= brk_mappings(end, m, available, new_end)
            &&& self.frames.in_use() == brk_in_use(
                end,
                m,
                available,
                before.frames.in_use(),
                new_end,
            )
        }
    }

    /// Queries or moves the end of the current process's heap; see
    /// [`Heap::brk`](super::vm::heap::Heap::brk). `None`, with nothing
    /// changed, when the process is dead.
    pub fn brk(&mut self, new_end: Option<u64>) -> (result: Option<u64>)
        requires
            old(self).wf(),
        ensures
            final(self).wf(),
            final(self).did_brk(old(self), new_end, result),
    {
        match self.group_of_current() {
            Some(group) => {
                assert(old(self).groups[group as int].wf());
                let result = self.groups[group].brk(new_end, &mut self.frames);
                proof {
                    assert forall|k: u16| #[trigger]
                        self.processes@.contains_key(k) implies self.entry_wf(k) by {
                        assert(old(self).entry_wf(k));
                    }
                    assert forall|g: int| 0 <= g < self.groups.len() implies (
                    #[trigger] self.groups[g]).wf() && self.groups[g].members < self.pids.next() by {
                        assert(old(self).groups[g].wf());
                    }
                }
                result
            },
            None => {
                proof {
                    assert forall|g: int| 0 <= g < self.groups.len() implies (
                    #[trigger] self.groups[g]).same_as(&old(self).groups[g]) by {}
                }
                None
            },
        }
    }
}

/// Fork is symmetric: the parent finds the child's identifier in its
/// return-value register and the child finds zero; the child is a new
/// process, listed as the parent's last child, with a stack that shares no
/// page with the parent's.
pub proof fn lemma_fork_symmetry(before: ProcessManager, after: ProcessManager, child: ProcessId)
    requires
        before.wf(),
        after.did_fork(&before, Some(child)),
    ensures
        child != before.current,
        !before.has(child),
        after.proc(before.current).inner.context.regs.rax == child.0 as usize,
        after.proc(child).inner.context.regs.rax == 0,
        after.proc(child).inner.parent == Some(before.current),
        after.proc(before.current).inner.children@.last() == child,
        crate::memory::paging::ranges_disjoint(
            before.proc(before.current).inner.proc_vm->0.stack.range().start,
            after.proc(child).inner.proc_vm->0.stack.range().start,
            before.proc(before.current).inner.proc_vm->0.stack.usage(),
        ),
{
    assert(before.entry_wf(before.current.0));
}

/// A kill reaches everybody who waits: each live process that waited for
/// the exit of `pid` is `Ready` afterwards and finds the exit code in its
/// return-value register, however many waited with it. The list of those
/// waiting is gone, so that nobody is woken a second time, and the ready
/// queue has grown by exactly the live ones among them, in their order.
pub proof fn lemma_kill_reaches_waiters(
    before: ProcessManager,
    after: ProcessManager,
    pid: ProcessId,
    ret: isize,
    i: int,
)
    requires
        before.wf(),
        before.can_kill(pid),
        after.did_kill(&before, pid, ret),
        0 <= i < before.waiters(pid).len(),
        before.waiters(pid)[i] != pid,
        before.has(before.waiters(pid)[i]),
        !(before.proc(before.waiters(pid)[i]).inner.status is Dead),
    ensures
        after.has(before.waiters(pid)[i]),
        after.proc(before.waiters(pid)[i]).inner.status is Ready,
        after.proc(before.waiters(pid)[i]).inner.context.regs.rax == ret as usize,
        after.proc(before.waiters(pid)[i]) == woken(
            before.proc(before.waiters(pid)[i]),
            Some(ret),
        ),
        after.waiters(pid) == Seq::<ProcessId>::empty(),
        after.ready_queue@ == before.ready_queue@ + before.waiters(pid).filter(
            |w: ProcessId| can_wake(before.table_with_dead(pid, ret), w),
        ),
        before.waiters(pid).no_duplicates(),
{
    let waiters = before.waiters(pid);
    let dead = before.table_with_dead(pid, ret);
    let w = waiters[i];
    assert(w.0 != pid.0);
    assert(can_wake(dead, w));
    lemma_wakes_reach_each(dead, waiters, ret, waiters.len(), i);
    lemma_wakes_queue(dead, before.ready_queue@, waiters, Some(ret), waiters.len());
    lemma_wakes_keep_dead(dead, waiters, Some(ret), waiters.len(), w.0);
    assert(waiters.take(waiters.len() as int) =~= waiters);
    if before.wait_queue@.contains_key(pid.0) {
        assert(before.wait_queue@[pid.0]@.no_duplicates());
    }
}

/// Killing twice is killing once: the second kill of the same process
/// changes nothing, whatever exit code it brings.
pub proof fn lemma_kill_twice(
    first: ProcessManager,
    second: ProcessManager,
    third: ProcessManager,
    pid: ProcessId,
    ret: isize,
    again: isize,
)
    requires
        second.did_kill(&first, pid, ret),
        third.did_kill(&second, pid, again),
    ensures
        third == second,
        first.has(pid) ==> third.proc(pid).inner.status is Dead,
        first.can_kill(pid) ==> third.proc(pid).inner.exit_code == Some(ret),
{
}

/// Starts process management: `first` becomes `Running`, and the current
/// process of the state that [`ProcessManager::new`] makes of the rest.
pub fn init(
    first: Process,
    app_list: Vec<App>,
    kernel_group: ProcessGroup,
    frames: FrameAllocator,
    pids: PidAllocator,
    selectors: Selectors,
) -> (manager: ProcessManager)
    requires
        first.wf(),
        first.pid.0 < pids.next(),
        first.inner.children.len() < pids.next(),
        first.inner.proc_vm matches Some(vm) ==> vm.group == 0,
        kernel_group.wf(),
        kernel_group.members < pids.next(),
        frames.wf(),
    ensures
        manager.wf(),
        manager.processes@ == Map::<u16, Process>::empty().insert(
            first.pid.0,
            Process { pid: first.pid, inner: first.inner.moved_to(ProgramStatus::Running) },
        ),
        manager.ready_queue@ == Seq::<ProcessId>::empty(),
        manager.wait_queue@ == Map::<u16, Vec<ProcessId>>::empty(),
        manager.app_list == app_list,
        manager.groups@ == seq![kernel_group],
        manager.frames == frames,
        manager.pids == pids,
        manager.current == first.pid,
        manager.selectors == selectors,
{
    let mut first = first;
    first.inner.resume();
    ProcessManager::new(first, app_list, kernel_group, frames, pids, selectors)
}

} // verus!

//! Counting semaphores with first-in-first-out wait queues.
//!
//! A semaphore never blocks or wakes a process itself. `wait` and `signal`
//! return a [`SemaphoreResult`] that tells the scheduler what to do.

use super::pid::ProcessId;
use std::collections::BTreeMap;
use std::collections::VecDeque;
use vstd::prelude::*;

verus! {

/// Key of a semaphore within one semaphore set.
#[derive(Clone, Copy, Debug, PartialEq, Eq, PartialOrd, Ord, Hash, Structural)]
pub struct SemaphoreId(u32);

impl SemaphoreId {
    /// The key as a number.
    pub closed spec fn key(self) -> u32 {
        self.0
    }

    /// The identifier for `key`.
    pub fn new(key: u32) -> (id: SemaphoreId)
        ensures
            id.key() == key,
    {
        SemaphoreId(key)
    }

    /// The key this identifier was made from.
    pub fn raw(&self) -> (key: u32)
        ensures
            key == self.key(),
    {
        self.0
    }
}

/// What the caller of `wait` or `signal` has to do next.
#[derive(Clone, Copy, Debug, PartialEq, Eq, Structural)]
pub enum SemaphoreResult {
    /// The operation is complete.
    Done,
    /// No semaphore has the given key.
    NotExist,
    /// The process was queued and must be blocked.
    Block(ProcessId),
    /// The process left the queue and must be woken.
    WakeUp(ProcessId),
}

/// The state of a semaphore: its count and the processes queued on it,
/// longest-waiting first.
pub struct SemState {
    pub count: nat,
    pub waiters: Seq<ProcessId>,
}

impl SemState {
    /// A semaphore with the given count and nobody waiting.
    pub open spec fn init(value: nat) -> SemState {
        SemState { count: value, waiters: Seq::empty() }
    }

    /// Down: with a positive count, take one; otherwise join the queue's
    /// tail and ask to be blocked.
    pub open spec fn wait(self, pid: ProcessId) -> (SemState, SemaphoreResult) {
        if self.count == 0 {
            (
                SemState { count: 0, waiters: self.waiters.push(pid) },
                SemaphoreResult::Block(pid),
            )
        } else {
            (
                SemState { count: (self.count - 1) as nat, waiters: self.waiters },
                SemaphoreResult::Done,
            )
        }
    }

    /// Up: with somebody waiting, release the queue's head; otherwise add
    /// one to the count.
    pub open spec fn signal(self) -> (SemState, SemaphoreResult) {
        if self.waiters.len() > 0 {
            (
                SemState { count: self.count, waiters: self.waiters.drop_first() },
                SemaphoreResult::WakeUp(self.waiters[0]),
            )
        } else {
            (SemState { count: self.count + 1, waiters: self.waiters }, SemaphoreResult::Done)
        }
    }

    /// True when `signal` can be carried out with a machine-sized count.
    pub open spec fn can_signal(self) -> bool {
        self.waiters.len() > 0 || self.count < usize::MAX
    }

    /// The state after the processes of `pids` have called `wait` one after
    /// another, first element first.
    pub open spec fn after_waits(self, pids: Seq<ProcessId>) -> SemState
        decreases pids.len(),
    {
        if pids.len() == 0 {
            self
        } else {
            self.after_waits(pids.drop_last()).wait(pids.last()).0
        }
    }

    /// The state after `k` calls of `signal`.
    pub open spec fn after_signals(self, k: nat) -> SemState
        decreases k,
    {
        if k == 0 {
            self
        } else {
            self.after_signals((k - 1) as nat).signal().0
        }
    }

    /// What the `i`-th of a run of `signal` calls returns, counting from 0.
    pub open spec fn nth_signal(self, i: nat) -> SemaphoreResult {
        self.after_signals(i).signal().1
    }
}

/// A counting semaphore.
#[derive(Debug)]
pub struct Semaphore {
    count: usize,
    wait_queue: VecDeque<ProcessId>,
}

impl View for Semaphore {
    type V = SemState;

    closed spec fn view(&self) -> SemState {
        SemState { count: self.count as nat, waiters: self.wait_queue@ }
    }
}

impl Semaphore {
    /// A semaphore that starts at `value` with an empty queue.
    pub fn new(value: usize) -> (sem: Semaphore)
        ensures
            sem@ == SemState::init(value as nat),
    {
        Semaphore { count: value, wait_queue: VecDeque::new() }
    }

    /// The current count.
    pub fn count(&self) -> (n: usize)
        ensures
            n == self@.count,
    {
        self.count
    }

    /// How many processes are queued.
    pub fn waiting(&self) -> (n: usize)
        ensures
            n == self@.waiters.len(),
    {
        self.wait_queue.len()
    }

    /// True when `signal` may be called: somebody is waiting, or the count
    /// is below the largest `usize`.
    pub fn can_signal(&self) -> (b: bool)
        ensures
            b == self@.can_signal(),
    {
        self.wait_queue.len() > 0 || self.count < usize::MAX
    }

    /// Down. Returns `Done` after taking one from a positive count, and
    /// `Block(pid)` after queueing `pid` behind those already waiting.
    pub fn wait(&mut self, pid: ProcessId) -> (result: SemaphoreResult)
        ensures
            (final(self)@, result) == old(self)@.wait(pid),
    {
        if self.count == 0 {
            self.wait_queue.push_back(pid);
            SemaphoreResult::Block(pid)
        } else {
            self.count = self.count - 1;
            SemaphoreResult::Done
        }
    }

    /// Up. Returns `WakeUp(pid)` for the longest-waiting process, which
    /// leaves the queue, and `Done` after adding one to the count when the
    /// queue is empty.
    pub fn signal(&mut self) -> (result: SemaphoreResult)
        requires
            old(self)@.can_signal(),
        ensures
            (final(self)@, result) == old(self)@.signal(),
    {
        match self.wait_queue.pop_front() {
            Some(pid) => {
                assert(self.wait_queue@ =~= old(self).wait_queue@.drop_first());
                SemaphoreResult::WakeUp(pid)
            },
            None => {
                self.count = self.count + 1;
                SemaphoreResult::Done
            },
        }
    }
}

/// The semaphores of one set, by key.
pub type SemStates = Map<u32, SemState>;

/// `wait` on the semaphore `key` of a set: the set afterwards and the answer.
pub open spec fn set_wait(sems: SemStates, key: u32, pid: ProcessId) -> (
    SemStates,
    SemaphoreResult,
) {
    if sems.contains_key(key) {
        (sems.insert(key, sems[key].wait(pid).0), sems[key].wait(pid).1)
    } else {
        (sems, SemaphoreResult::NotExist)
    }
}

/// `signal` on the semaphore `key` of a set: the set afterwards and the
/// answer.
pub open spec fn set_signal(sems: SemStates, key: u32) -> (SemStates, SemaphoreResult) {
    if sems.contains_key(key) {
        (sems.insert(key, sems[key].signal().0), sems[key].signal().1)
    } else {
        (sems, SemaphoreResult::NotExist)
    }
}

/// True when `signal` on `key` can be carried out: the key is absent, or its
/// semaphore can take a signal.
pub open spec fn set_can_signal(sems: SemStates, key: u32) -> bool {
    sems.contains_key(key) ==> sems[key].can_signal()
}

/// A table of semaphores, each under an integer key.
pub struct SemaphoreSet {
    sems: BTreeMap<u32, Semaphore>,
}

impl View for SemaphoreSet {
    type V = SemStates;

    closed spec fn view(&self) -> SemStates {
        Map::new(|k: u32| self.sems@.contains_key(k), |k: u32| self.sems@[k]@)
    }
}

impl SemaphoreSet {
    /// A set without semaphores.
    pub fn new() -> (set: SemaphoreSet)
        ensures
            set@ == Map::<u32, SemState>::empty(),
    {
        let set = SemaphoreSet { sems: BTreeMap::new() };
        assert(set@ =~= Map::<u32, SemState>::empty());
        set
    }

    /// Adds a semaphore that starts at `value` under `key`. Returns false,
    /// and changes nothing, when the key is taken.
    pub fn insert(&mut self, key: u32, value: usize) -> (added: bool)
        ensures
            added == !old(self)@.contains_key(key),
            added ==> final(self)@ == old(self)@.insert(key, SemState::init(value as nat)),
            !added ==> final(self)@ == old(self)@,
    {
        if self.sems.contains_key(&key) {
            false
        } else {
            self.sems.insert(key, Semaphore::new(value));
            assert(self@ =~= old(self)@.insert(key, SemState::init(value as nat)));
            true
        }
    }

    /// Removes the semaphore under `key`, queue and all. Returns false, and
    /// changes nothing, when there is none.
    pub fn remove(&mut self, key: u32) -> (removed: bool)
        ensures
            removed == old(self)@.contains_key(key),
            final(self)@ == old(self)@.remove(key),
    {
        let gone = self.sems.remove(&key);
        assert(self@ =~= old(self)@.remove(key));
        gone.is_some()
    }

    /// True when a semaphore exists under `key`.
    pub fn contains(&self, key: u32) -> (found: bool)
        ensures
            found == self@.contains_key(key),
    {
        self.sems.contains_key(&key)
    }

    /// True when a semaphore exists under `key` and its count is zero, so
    /// that a `wait` on it queues the caller.
    pub fn is_zero(&self, key: u32) -> (zero: bool)
        ensures
            zero == (self@.contains_key(key) && self@[key].count == 0),
    {
        match self.sems.get(&key) {
            Some(sem) => sem.count() == 0,
            None => false,
        }
    }

    /// True when `signal(key)` may be called.
    pub fn can_signal(&self, key: u32) -> (b: bool)
        ensures
            b == set_can_signal(self@, key),
    {
        match self.sems.get(&key) {
            Some(sem) => sem.can_signal(),
            None => true,
        }
    }

    /// Down on the semaphore under `key` for `pid`; `NotExist` without one.
    pub fn wait(&mut self, key: u32, pid: ProcessId) -> (result: SemaphoreResult)
        ensures
            (final(self)@, result) == set_wait(old(self)@, key, pid),
    {
        match self.sems.remove(&key) {
            Some(sem) => {
                let mut sem = sem;
                let result = sem.wait(pid);
                self.sems.insert(key, sem);
                assert(self@ =~= set_wait(old(self)@, key, pid).0);
                result
            },
            None => {
                assert(self@ =~= old(self)@);
                SemaphoreResult::NotExist
            },
        }
    }

    /// Up on the semaphore under `key`; `NotExist` without one.
    pub fn signal(&mut self, key: u32) -> (result: SemaphoreResult)
        requires
            set_can_signal(old(self)@, key),
        ensures
            (final(self)@, result) == set_signal(old(self)@, key),
    {
        match self.sems.remove(&key) {
            Some(sem) => {
                let mut sem = sem;
                let result = sem.signal();
                self.sems.insert(key, sem);
                assert(self@ =~= set_signal(old(self)@, key).0);
                result
            },
            None => {
                assert(self@ =~= old(self)@);
                SemaphoreResult::NotExist
            },
        }
    }
}

/// After any run of waits on a semaphore whose count is zero, the queue is
/// the old queue followed by the callers in calling order, and every one of
/// them was told to block.
pub proof fn lemma_waits_queue_in_order(s: SemState, pids: Seq<ProcessId>)
    requires
        s.count == 0,
    ensures
        s.after_waits(pids) == (SemState { count: 0, waiters: s.waiters + pids }),
        forall|i: int|
            0 <= i < pids.len() ==> (#[trigger] s.after_waits(pids.take(i)).wait(pids[i])).1
                == SemaphoreResult::Block(pids[i]),
    decreases pids.len(),
{
    if pids.len() == 0 {
        assert(s.waiters + pids =~= s.waiters);
    } else {
        let front = pids.drop_last();
        lemma_waits_queue_in_order(s, front);
        assert((s.waiters + front).push(pids.last()) =~= s.waiters + pids);
    }
    assert forall|i: int| 0 <= i < pids.len() implies (#[trigger] s.after_waits(pids.take(i)).wait(
        pids[i],
    )).1 == SemaphoreResult::Block(pids[i]) by {
        lemma_waits_queue_in_order_prefix(s, pids.take(i));
    }
}

proof fn lemma_waits_queue_in_order_prefix(s: SemState, pids: Seq<ProcessId>)
    requires
        s.count == 0,
    ensures
        s.after_waits(pids).count == 0,
    decreases pids.len(),
{
    if pids.len() > 0 {
        lemma_waits_queue_in_order_prefix(s, pids.drop_last());
    }
}

/// Signals release waiting processes from the head of the queue: as long as
/// `k` does not exceed the queue's length, `k` signals leave the count
/// alone and remove the first `k` waiters.
pub proof fn lemma_signals_drain_head(s: SemState, k: nat)
    requires
        k <= s.waiters.len(),
    ensures
        s.after_signals(k) == (SemState { count: s.count, waiters: s.waiters.skip(k as int) }),
    decreases k,
{
    if k == 0 {
        assert(s.waiters.skip(0) =~= s.waiters);
    } else {
        lemma_signals_drain_head(s, (k - 1) as nat);
        assert(s.waiters.skip(k - 1).drop_first() =~= s.waiters.skip(k as int));
    }
}

/// First blocked, first woken: on a semaphore that starts at zero, after the
/// processes of `pids` have waited in that order, the `i`-th signal wakes
/// exactly the `i`-th of them, for every `i` below their number.
pub proof fn lemma_semaphore_fifo(pids: Seq<ProcessId>, i: nat)
    requires
        i < pids.len(),
    ensures
        SemState::init(0).after_waits(pids).nth_signal(i) == SemaphoreResult::WakeUp(
            pids[i as int],
        ),
{
    let s = SemState::init(0).after_waits(pids);
    lemma_waits_queue_in_order(SemState::init(0), pids);
    assert(Seq::<ProcessId>::empty() + pids =~= pids);
    lemma_signals_drain_head(s, i);
}

} // verus!

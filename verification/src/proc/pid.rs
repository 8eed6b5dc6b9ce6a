//! Process identifiers and the counter that issues them.

use vstd::prelude::*;

verus! {

/// Identifier of a process: 16 bits, never zero once issued.
#[derive(Clone, Copy, Debug, PartialEq, Eq, PartialOrd, Ord, Hash, Structural)]
pub struct ProcessId(pub u16);

/// The number of the identifier reserved for the kernel process, the first
/// one issued.
pub const KERNEL_PID: u16 = 1;

/// Source of fresh identifiers: a counter that only moves upward.
///
/// Identifiers are handed out in the order 1, 2, 3, ... and none is handed
/// out twice. After 65535 of them the counter is exhausted.
pub struct PidAllocator {
    next: u32,
}

impl PidAllocator {
    /// The identifier that the next call of `ProcessId::new` returns, as a
    /// number; 65536 once every identifier has been issued.
    pub closed spec fn next(&self) -> nat {
        self.next as nat
    }

    #[verifier::type_invariant]
    spec fn inv(&self) -> bool {
        1 <= self.next <= 0x1_0000
    }

    /// A counter that has issued nothing yet.
    pub fn new() -> (pids: PidAllocator)
        ensures
            pids.next() == 1,
    {
        PidAllocator { next: 1 }
    }

    /// How many identifiers have been issued so far.
    pub fn issued(&self) -> (n: u32)
        ensures
            n == self.next() - 1,
            n <= 0xFFFF,
    {
        proof {
            use_type_invariant(self);
        }
        self.next - 1
    }

    /// True when no identifier is left. The counter never leaves the range
    /// from 1 to 65536.
    pub fn is_exhausted(&self) -> (b: bool)
        ensures
            b == (self.next() == 0x1_0000),
            1 <= self.next() <= 0x1_0000,
    {
        proof {
            use_type_invariant(self);
        }
        self.next == 0x1_0000
    }
}

impl ProcessId {
    /// Issues the next identifier.
    ///
    /// The result is the counter's value before the call, and the counter
    /// moves up by one: two calls on the same counter never return the same
    /// identifier, and a later call returns a larger one.
    pub fn new(pids: &mut PidAllocator) -> (pid: ProcessId)
        requires
            old(pids).next() < 0x1_0000,
        ensures
            pid.0 as nat == old(pids).next(),
            pid.0 != 0,
            final(pids).next() == old(pids).next() + 1,
    {
        proof {
            use_type_invariant(&*pids);
        }
        let value: u16 = pids.next as u16;
        pids.next = pids.next + 1;
        ProcessId(value)
    }

    /// The identifier as a number.
    pub open spec fn value(self) -> int {
        self.0 as int
    }
}

impl From<ProcessId> for u16 {
    fn from(pid: ProcessId) -> (raw: u16) {
        pid.0
    }
}

impl vstd::std_specs::convert::FromSpecImpl<ProcessId> for u16 {
    open spec fn obeys_from_spec() -> bool {
        true
    }

    open spec fn from_spec(pid: ProcessId) -> u16 {
        pid.0
    }
}

/// The identifiers that `n` successive calls of `ProcessId::new` return on
/// a counter that stands at `start`.
pub open spec fn issued_ids(start: nat, n: nat) -> Seq<ProcessId> {
    Seq::new(n, |i: int| ProcessId((start + i) as u16))
}

/// Any run of creations yields identifiers that are strictly increasing and
/// therefore pairwise distinct, as long as the counter is not exhausted
/// within the run.
pub proof fn lemma_issued_ids_increasing(start: nat, n: nat)
    requires
        1 <= start,
        start + n <= 0x1_0000,
    ensures
        issued_ids(start, n).len() == n,
        forall|i: int| 0 <= i < n ==> (#[trigger] issued_ids(start, n)[i]).0 == start + i,
        forall|i: int, j: int|
            0 <= i < j < n ==> (#[trigger] issued_ids(start, n)[i]).0 < (#[trigger] issued_ids(
                start,
                n,
            )[j]).0,
        forall|i: int, j: int|
            0 <= i < n && 0 <= j < n && i != j ==> #[trigger] issued_ids(start, n)[i]
                != #[trigger] issued_ids(start, n)[j],
{
}

/// Creates `n` processes' worth of identifiers in one go.
///
/// The result is exactly the run that `issued_ids` describes: strictly
/// increasing, pairwise distinct, none of them zero.
pub fn issue_many(pids: &mut PidAllocator, n: u16) -> (ids: Vec<ProcessId>)
    requires
        old(pids).next() + n <= 0x1_0000,
    ensures
        ids@ == issued_ids(old(pids).next(), n as nat),
        final(pids).next() == old(pids).next() + n,
{
    let mut ids: Vec<ProcessId> = Vec::new();
    let ghost start = pids.next();
    let _ = pids.is_exhausted();
    let mut i: u16 = 0;
    while i < n
        invariant
            i <= n,
            1 <= start,
            start + n <= 0x1_0000,
            pids.next() == start + i,
            ids@ == issued_ids(start, i as nat),
        decreases n - i,
    {
        let pid = ProcessId::new(pids);
        ids.push(pid);
        i = i + 1;
        assert(ids@ =~= issued_ids(start, i as nat));
    }
    ids
}

} // verus!

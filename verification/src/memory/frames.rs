//! The allocator of physical frames.
//!
//! Frames are counted, not named: the allocator knows how many frames the
//! machine has, how many it has ever handed out for the first time, and how
//! many of those have come back and wait to be handed out again.

use vstd::prelude::*;

verus! {

/// Keeps count of the physical frames.
pub struct FrameAllocator {
    total: u64,
    used: u64,
    recycled: u64,
}

impl FrameAllocator {
    /// All frames of the machine.
    pub closed spec fn total(&self) -> nat {
        self.total as nat
    }

    /// Frames handed out at least once.
    pub closed spec fn used(&self) -> nat {
        self.used as nat
    }

    /// Frames that came back and have not been handed out again.
    pub closed spec fn recycled(&self) -> nat {
        self.recycled as nat
    }

    /// The counts are consistent: nothing is recycled that was never used,
    /// and no more is used than exists.
    pub open spec fn wf(&self) -> bool {
        self.recycled() <= self.used() <= self.total()
    }

    /// Frames that back a mapping right now.
    pub open spec fn in_use(&self) -> int {
        self.used() - self.recycled()
    }

    /// Frames that can still be handed out.
    pub open spec fn available(&self) -> int {
        self.total() - self.in_use()
    }

    /// An allocator over `total` frames, none of them handed out.
    pub fn new(total: u64) -> (alloc: FrameAllocator)
        ensures
            alloc.wf(),
            alloc.total() == total,
            alloc.used() == 0,
            alloc.recycled() == 0,
    {
        FrameAllocator { total, used: 0, recycled: 0 }
    }

    /// All frames of the machine.
    pub fn frames_total(&self) -> (n: u64)
        ensures
            n == self.total(),
    {
        self.total
    }

    /// Frames handed out at least once.
    pub fn frames_used(&self) -> (n: u64)
        ensures
            n == self.used(),
    {
        self.used
    }

    /// Frames waiting to be handed out again.
    pub fn frames_recycled(&self) -> (n: u64)
        ensures
            n == self.recycled(),
    {
        self.recycled
    }

    /// Frames that can still be handed out.
    pub fn frames_available(&self) -> (n: u64)
        requires
            self.wf(),
        ensures
            n == self.available(),
    {
        self.total - (self.used - self.recycled)
    }

    /// Takes `count` frames, recycled ones first. Either all of them are
    /// taken, or, when fewer are available, none is and the result is false.
    pub fn allocate(&mut self, count: u64) -> (done: bool)
        requires
            old(self).wf(),
        ensures
            final(self).wf(),
            final(self).total() == old(self).total(),
            done == (count <= old(self).available()),
            done ==> final(self).in_use() == old(self).in_use() + count,
            done ==> final(self).recycled() == if count <= old(self).recycled() {
                old(self).recycled() - count
            } else {
                0
            },
            !done ==> *final(self) == *old(self),
    {
        if count > self.total - (self.used - self.recycled) {
            return false;
        }
        if count <= self.recycled {
            self.recycled = self.recycled - count;
        } else {
            self.used = self.used + (count - self.recycled);
            self.recycled = 0;
        }
        true
    }

    /// Takes one frame; false when none is available.
    pub fn allocate_frame(&mut self) -> (done: bool)
        requires
            old(self).wf(),
        ensures
            final(self).wf(),
            final(self).total() == old(self).total(),
            done == (old(self).available() > 0),
            done ==> final(self).in_use() == old(self).in_use() + 1,
            !done ==> *final(self) == *old(self),
    {
        self.allocate(1)
    }

    /// Gives `count` frames back. No more can come back than are in use:
    /// what exceeds that number is ignored.
    pub fn deallocate(&mut self, count: u64)
        requires
            old(self).wf(),
        ensures
            final(self).wf(),
            final(self).total() == old(self).total(),
            final(self).used() == old(self).used(),
            final(self).in_use() == if count <= old(self).in_use() {
                old(self).in_use() - count
            } else {
                0
            },
    {
        let in_use: u64 = self.used - self.recycled;
        if count <= in_use {
            self.recycled = self.recycled + count;
        } else {
            self.recycled = self.used;
        }
    }
}

} // verus!

//! Physical page frames: the allocator that hands them out and the handle
//! that stands for one of them.

use crate::address::PhysPageNum;
use vstd::prelude::*;

verus! {

/// Handle of one allocated physical frame.
#[derive(Debug)]
pub struct FrameTracker {
    pub ppn: PhysPageNum,
}

/// Hands out the frames `[current, end)` in rising order, and frames that
/// were given back before any fresh one, last returned first.
pub struct FrameAllocator {
    current: u64,
    end: u64,
    recycled: Vec<u64>,
}

impl FrameAllocator {
    /// Number of the next frame that was never handed out.
    pub closed spec fn next_fresh(&self) -> u64 {
        self.current
    }

    /// One past the last frame that this allocator manages.
    pub closed spec fn limit(&self) -> u64 {
        self.end
    }

    /// The frames that were given back and not handed out again, oldest first.
    pub closed spec fn returned(&self) -> Seq<u64> {
        self.recycled@
    }

    /// Fresh frames never run past the limit.
    pub open spec fn wf(&self) -> bool {
        self.next_fresh() <= self.limit()
    }

    /// Number of frames that can still be handed out.
    pub open spec fn spec_available(&self) -> int {
        self.returned().len() + (self.limit() - self.next_fresh())
    }

    /// An allocator for the frames `[start, end)`.
    pub fn new(start: PhysPageNum, end: PhysPageNum) -> (allocator: Self)
        requires
            start.0 <= end.0,
        ensures
            allocator.wf(),
            allocator.next_fresh() == start.0,
            allocator.limit() == end.0,
            allocator.returned() == Seq::<u64>::empty(),
    {
        FrameAllocator { current: start.0, end: end.0, recycled: Vec::new() }
    }

    /// An allocator that has no frame to hand out.
    pub fn empty() -> (allocator: Self)
        ensures
            allocator.wf(),
            allocator.spec_available() == 0,
            allocator.returned() == Seq::<u64>::empty(),
    {
        FrameAllocator { current: 0, end: 0, recycled: Vec::new() }
    }

    /// Whether at least `n` frames can still be handed out.
    pub fn has_available(&self, n: u64) -> (b: bool)
        requires
            self.wf(),
        ensures
            b == (self.spec_available() >= n),
    {
        let fresh: u64 = self.end - self.current;
        if fresh >= n {
            true
        } else {
            let rest: u64 = n - fresh;
            let have: usize = self.recycled.len();
            have as u128 >= rest as u128
        }
    }

    /// The frames given back that remain after `n` allocations.
    pub open spec fn spec_returned_after(&self, n: int) -> Seq<u64> {
        if n < self.returned().len() {
            self.returned().subrange(0, self.returned().len() - n)
        } else {
            Seq::<u64>::empty()
        }
    }

    /// The next fresh frame after `n` allocations.
    pub open spec fn spec_fresh_after(&self, n: int) -> int {
        if n <= self.returned().len() {
            self.next_fresh() as int
        } else {
            self.next_fresh() + (n - self.returned().len())
        }
    }

    /// The frame that allocation number `k` from now yields, counting from
    /// zero.
    pub open spec fn spec_nth(&self, k: int) -> u64
        recommends
            0 <= k < self.spec_available(),
    {
        if k < self.returned().len() {
            self.returned()[self.returned().len() - 1 - k]
        } else {
            (self.next_fresh() + (k - self.returned().len())) as u64
        }
    }

    /// Hands out a frame, or `None` when none is left.
    pub fn frame_alloc(&mut self) -> (frame: Option<FrameTracker>)
        requires
            old(self).wf(),
        ensures
            final(self).wf(),
            final(self).limit() == old(self).limit(),
            old(self).spec_available() > 0 ==> {
                &&& frame == Some((FrameTracker { ppn: PhysPageNum(old(self).spec_nth(0)) }))
                &&& final(self).returned() == old(self).spec_returned_after(1)
                &&& final(self).next_fresh() == old(self).spec_fresh_after(1)
            },
            old(self).spec_available() <= 0 ==> {
                &&& frame is None
                &&& final(self).returned() == old(self).returned()
                &&& final(self).next_fresh() == old(self).next_fresh()
            },
    {
        match self.recycled.pop() {
            Some(ppn) => Some(FrameTracker { ppn: PhysPageNum(ppn) }),
            None => {
                if self.current < self.end {
                    let ppn: u64 = self.current;
                    self.current = self.current + 1;
                    Some(FrameTracker { ppn: PhysPageNum(ppn) })
                } else {
                    None
                }
            },
        }
    }

    /// Takes a frame back.  It is the next one to be handed out.
    pub fn frame_dealloc(&mut self, frame: FrameTracker)
        requires
            old(self).wf(),
        ensures
            final(self).wf(),
            final(self).limit() == old(self).limit(),
            final(self).next_fresh() == old(self).next_fresh(),
            final(self).returned() == old(self).returned().push(frame.ppn.0),
    {
        self.recycled.push(frame.ppn.0);
    }
}

} // verus!

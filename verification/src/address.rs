//! Addresses, page numbers and half-open ranges of page numbers.

use vstd::prelude::*;

verus! {

/// Page number that holds byte address `addr`.
pub open spec fn page_floor(addr: int) -> int {
    addr / 4096
}

/// Number of the first page that starts at or after byte address `addr`.
pub open spec fn page_ceil(addr: int) -> int {
    (addr + 4095) / 4096
}

/// A virtual byte address.
#[derive(Copy, Clone, Debug, PartialEq, Eq, Structural)]
pub struct VirtAddr(pub u64);

/// A physical byte address.
#[derive(Copy, Clone, Debug, PartialEq, Eq, Structural)]
pub struct PhysAddr(pub u64);

/// A virtual page number.
#[derive(Copy, Clone, Debug, PartialEq, Eq, Structural)]
pub struct VirtPageNum(pub u64);

/// A physical page number.
#[derive(Copy, Clone, Debug, PartialEq, Eq, Structural)]
pub struct PhysPageNum(pub u64);

impl VirtAddr {
    /// The page that holds this address.
    pub fn floor(&self) -> (vpn: VirtPageNum)
        ensures
            vpn.0 == page_floor(self.0 as int),
    {
        VirtPageNum(self.0 / 4096)
    }

    /// The first page that starts at or after this address.
    pub fn ceil(&self) -> (vpn: VirtPageNum)
        ensures
            vpn.0 == page_ceil(self.0 as int),
    {
        if self.0 % 4096 == 0 {
            VirtPageNum(self.0 / 4096)
        } else {
            VirtPageNum(self.0 / 4096 + 1)
        }
    }

    /// Offset of this address inside its page.
    pub fn page_offset(&self) -> (off: u64)
        ensures
            off == self.0 % 4096,
    {
        self.0 % 4096
    }

    /// Whether this address is the first byte of a page.
    pub fn aligned(&self) -> (b: bool)
        ensures
            b == (self.0 % 4096 == 0),
    {
        self.0 % 4096 == 0
    }
}

impl PhysAddr {
    /// The page that holds this address.
    pub fn floor(&self) -> (ppn: PhysPageNum)
        ensures
            ppn.0 == page_floor(self.0 as int),
    {
        PhysPageNum(self.0 / 4096)
    }

    /// The first page that starts at or after this address.
    pub fn ceil(&self) -> (ppn: PhysPageNum)
        ensures
            ppn.0 == page_ceil(self.0 as int),
    {
        if self.0 % 4096 == 0 {
            PhysPageNum(self.0 / 4096)
        } else {
            PhysPageNum(self.0 / 4096 + 1)
        }
    }

    /// Offset of this address inside its page.
    pub fn page_offset(&self) -> (off: u64)
        ensures
            off == self.0 % 4096,
    {
        self.0 % 4096
    }

    /// Whether this address is the first byte of a page.
    pub fn aligned(&self) -> (b: bool)
        ensures
            b == (self.0 % 4096 == 0),
    {
        self.0 % 4096 == 0
    }
}

impl VirtPageNum {
    /// Moves to the next page.
    pub fn step(&mut self)
        requires
            old(self).0 < u64::MAX,
        ensures
            final(self).0 == old(self).0 + 1,
    {
        self.0 = self.0 + 1;
    }

    /// Address of the first byte of this page, if it fits in 64 bits.
    pub fn start_addr(&self) -> (va: Option<VirtAddr>)
        ensures
            va == if self.0 * 4096 <= u64::MAX {
                Some(VirtAddr((self.0 * 4096) as u64))
            } else {
                None
            },
    {
        if self.0 <= u64::MAX / 4096 {
            Some(VirtAddr(self.0 * 4096))
        } else {
            None
        }
    }
}

impl PhysPageNum {
    /// Moves to the next page.
    pub fn step(&mut self)
        requires
            old(self).0 < u64::MAX,
        ensures
            final(self).0 == old(self).0 + 1,
    {
        self.0 = self.0 + 1;
    }

    /// Address of the first byte of this page, if it fits in 64 bits.
    pub fn start_addr(&self) -> (pa: Option<PhysAddr>)
        ensures
            pa == if self.0 * 4096 <= u64::MAX {
                Some(PhysAddr((self.0 * 4096) as u64))
            } else {
                None
            },
    {
        if self.0 <= u64::MAX / 4096 {
            Some(PhysAddr(self.0 * 4096))
        } else {
            None
        }
    }
}

/// A half-open range `[start, end)` of virtual page numbers.  It holds no
/// page unless `start < end`.
#[derive(Copy, Clone, Debug, PartialEq, Eq, Structural)]
pub struct VPNRange {
    pub l: VirtPageNum,
    pub r: VirtPageNum,
}

/// A half-open range `[start, end)` of physical page numbers.  It holds no
/// page unless `start < end`.
#[derive(Copy, Clone, Debug, PartialEq, Eq, Structural)]
pub struct PPNRange {
    pub l: PhysPageNum,
    pub r: PhysPageNum,
}

impl VPNRange {
    /// The range is ordered.
    pub open spec fn wf(&self) -> bool {
        self.l.0 <= self.r.0
    }

    /// Number of pages in the range.
    pub open spec fn spec_len(&self) -> int {
        if self.l.0 <= self.r.0 {
            self.r.0 - self.l.0
        } else {
            0
        }
    }

    /// Whether page `vpn` lies in the range.
    pub open spec fn contains(&self, vpn: u64) -> bool {
        self.l.0 <= vpn < self.r.0
    }

    pub fn new(start: VirtPageNum, end: VirtPageNum) -> (range: Self)
        ensures
            range.l == start,
            range.r == end,
    {
        VPNRange { l: start, r: end }
    }

    pub fn get_start(&self) -> (vpn: VirtPageNum)
        ensures
            vpn == self.l,
    {
        self.l
    }

    pub fn get_end(&self) -> (vpn: VirtPageNum)
        ensures
            vpn == self.r,
    {
        self.r
    }
}

impl PPNRange {
    /// The range is ordered.
    pub open spec fn wf(&self) -> bool {
        self.l.0 <= self.r.0
    }

    /// Number of pages in the range.
    pub open spec fn spec_len(&self) -> int {
        if self.l.0 <= self.r.0 {
            self.r.0 - self.l.0
        } else {
            0
        }
    }

    pub fn new(start: PhysPageNum, end: PhysPageNum) -> (range: Self)
        ensures
            range.l == start,
            range.r == end,
    {
        PPNRange { l: start, r: end }
    }

    pub fn get_start(&self) -> (ppn: PhysPageNum)
        ensures
            ppn == self.l,
    {
        self.l
    }

    pub fn get_end(&self) -> (ppn: PhysPageNum)
        ensures
            ppn == self.r,
    {
        self.r
    }
}

} // verus!

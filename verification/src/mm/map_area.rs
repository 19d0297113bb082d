//! Map areas: runs of virtual pages with one way of backing and one
//! permission.

use crate::address::{page_ceil, page_floor};
use crate::address::{PPNRange, PhysAddr, PhysPageNum, VPNRange, VirtAddr, VirtPageNum};
use crate::frame::{FrameAllocator, FrameTracker};
use crate::memory::{spec_write, PhysMemory};
use crate::page_table::{PageTable, PageTableEntry, PTE_V};
use std::collections::BTreeMap;
use vstd::prelude::*;

verus! {

broadcast use vstd::std_specs::btree::group_btree_axioms;

/// How the pages of an area get their frames.
#[derive(Copy, Clone, PartialEq, Eq, Debug, Structural)]
pub enum MapType {
    /// Each page gets a frame of its own from the allocator.
    Framed,
    /// The pages are laid over a fixed run of physical pages.
    Linear,
}

/// Page may be read.
pub const MAP_PERM_R: u8 = 0x02;

/// Page may be written.
pub const MAP_PERM_W: u8 = 0x04;

/// Page may be executed.
pub const MAP_PERM_X: u8 = 0x08;

/// Page may be used from the less privileged mode.
pub const MAP_PERM_U: u8 = 0x10;

/// What may be done with the pages of an area: a set of the bits `R`, `W`,
/// `X` and `U`, in the positions that they have in a page-table entry.
#[derive(Copy, Clone, PartialEq, Eq, Debug, Structural)]
pub struct MapPermission {
    pub bits: u8,
}

impl MapPermission {
    pub fn from_bits(bits: u8) -> (perm: Self)
        ensures
            perm.bits == bits,
    {
        MapPermission { bits }
    }

    pub fn bits(&self) -> (bits: u8)
        ensures
            bits == self.bits,
    {
        self.bits
    }

    /// Whether every bit of `other` is set in `self`.
    pub fn contains(&self, other: MapPermission) -> (b: bool)
        ensures
            b == (self.bits & other.bits == other.bits),
    {
        self.bits & other.bits == other.bits
    }

    /// The bits of both.
    pub fn union(&self, other: MapPermission) -> (perm: Self)
        ensures
            perm.bits == self.bits | other.bits,
    {
        MapPermission { bits: self.bits | other.bits }
    }
}

/// The table `pt` after an attempt to map `vpn` to `pte`: the entry is
/// installed only where the page had none.
pub open spec fn spec_map_page(
    pt: Map<u64, PageTableEntry>,
    vpn: u64,
    pte: PageTableEntry,
) -> Map<u64, PageTableEntry> {
    if pt.contains_key(vpn) {
        pt
    } else {
        pt.insert(vpn, pte)
    }
}

/// The entries that lay the pages `[vlo, vhi)` over the physical pages from
/// `plo` on, each with `flags`.
pub open spec fn spec_linear_entries(vlo: u64, vhi: u64, plo: u64, flags: u8) -> Map<
    u64,
    PageTableEntry,
> {
    Map::new(
        |v: u64| vlo <= v < vhi,
        |v: u64| PageTableEntry { ppn: PhysPageNum((plo + (v - vlo)) as u64), flags },
    )
}

/// The frame handles that the pages `[vlo, vhi)` get when each takes the next
/// frame of `frames` in rising page order.
pub open spec fn spec_fresh_frames(vlo: u64, vhi: u64, frames: FrameAllocator) -> Map<
    u64,
    FrameTracker,
> {
    Map::new(
        |v: u64| vlo <= v < vhi,
        |v: u64| FrameTracker { ppn: PhysPageNum(frames.spec_nth(v - vlo)) },
    )
}

/// The entries that map each page of `frames` to its frame, with `flags`.
pub open spec fn spec_framed_entries(frames: Map<u64, FrameTracker>, flags: u8) -> Map<
    u64,
    PageTableEntry,
> {
    Map::new(
        |v: u64| frames.contains_key(v),
        |v: u64| PageTableEntry { ppn: frames[v].ppn, flags },
    )
}

/// The frames of the pages `[lo, hi)` of `frames`, in rising page order.
pub open spec fn spec_frames_in(frames: Map<u64, FrameTracker>, lo: u64, hi: u64) -> Seq<u64>
    decreases hi - lo,
{
    if lo >= hi {
        Seq::<u64>::empty()
    } else if frames.contains_key((hi - 1) as u64) {
        spec_frames_in(frames, lo, (hi - 1) as u64).push(frames[(hi - 1) as u64].ppn.0)
    } else {
        spec_frames_in(frames, lo, (hi - 1) as u64)
    }
}

/// Number of pages that `len` bytes take.
pub open spec fn spec_page_count(len: int) -> int {
    (len + 4095) / 4096
}

/// Memory after the first `n` pages of `data` were copied, page by page, to
/// the frames that `pt` gives the pages from `start_vpn` on.  `base` is the
/// address of the first byte of `mem`.
pub open spec fn spec_copy_pages(
    mem: Seq<u8>,
    base: int,
    pt: Map<u64, PageTableEntry>,
    start_vpn: int,
    data: Seq<u8>,
    n: nat,
) -> Seq<u8>
    decreases n,
{
    if n == 0 {
        mem
    } else {
        let k = n - 1;
        let hi = if data.len() < k * 4096 + 4096 {
            data.len() as int
        } else {
            k * 4096 + 4096
        };
        spec_write(
            spec_copy_pages(mem, base, pt, start_vpn, data, k as nat),
            pt[(start_vpn + k) as u64].ppn.0 * 4096 - base,
            data.subrange(k * 4096, hi),
        )
    }
}

/// What an area is without its frames: its ranges, its kind and its
/// permission.
#[derive(Copy, Clone, PartialEq, Eq, Debug, Structural)]
pub struct AreaShape {
    pub vpn_range: VPNRange,
    pub ppn_range: Option<PPNRange>,
    pub map_type: MapType,
    pub map_perm: MapPermission,
}

/// The shape of the linear area that `MapArea::new` makes of the virtual
/// addresses `[start_va, end_va)` and the physical addresses
/// `[start_pa, end_pa)`.
pub open spec fn spec_linear_shape(
    start_va: int,
    end_va: int,
    start_pa: int,
    end_pa: int,
    perm: u8,
) -> AreaShape {
    AreaShape {
        vpn_range: VPNRange {
            l: VirtPageNum(page_floor(start_va) as u64),
            r: VirtPageNum(page_ceil(end_va) as u64),
        },
        ppn_range: Some(
            PPNRange {
                l: PhysPageNum(page_floor(start_pa) as u64),
                r: PhysPageNum(page_ceil(end_pa) as u64),
            },
        ),
        map_type: MapType::Linear,
        map_perm: MapPermission { bits: perm },
    }
}

/// The shape of the linear area that maps `[start, end)` to itself.
pub open spec fn spec_identity_shape(start: int, end: int, perm: u8) -> AreaShape {
    spec_linear_shape(start, end, start, end, perm)
}

/// A contiguous run of virtual pages with one way of backing and one
/// permission.
pub struct MapArea {
    pub vpn_range: VPNRange,
    pub ppn_range: Option<PPNRange>,
    pub data_frames: BTreeMap<u64, FrameTracker>,
    pub map_type: MapType,
    pub map_perm: MapPermission,
}

impl MapArea {
    /// The flags of the page-table entries of this area.
    pub open spec fn spec_flags(&self) -> u8 {
        self.map_perm.bits | PTE_V
    }

    /// A linear area covers as many physical pages as virtual pages and holds
    /// no frames; a framed area holds frames for pages of its own only.
    pub open spec fn wf(&self) -> bool {
        &&& self.vpn_range.wf()
        &&& match self.map_type {
            MapType::Linear => {
                &&& self.ppn_range matches Some(p) && p.wf() && p.spec_len()
                    == self.vpn_range.spec_len()
                &&& self.data_frames@ == Map::<u64, FrameTracker>::empty()
            },
            MapType::Framed => forall|v: u64| #[trigger]
                self.data_frames@.contains_key(v) ==> self.vpn_range.contains(v),
        }
    }

    /// A framed area holds a frame for each of its pages.
    pub open spec fn backed(&self) -> bool {
        self.map_type is Framed ==> forall|v: u64|
            self.vpn_range.contains(v) ==> #[trigger] self.data_frames@.contains_key(v)
    }

    /// The translations that belong to this area.
    pub open spec fn entries(&self) -> Map<u64, PageTableEntry> {
        match self.map_type {
            MapType::Linear => spec_linear_entries(
                self.vpn_range.l.0,
                self.vpn_range.r.0,
                self.ppn_range.unwrap().l.0,
                self.spec_flags(),
            ),
            MapType::Framed => spec_framed_entries(self.data_frames@, self.spec_flags()),
        }
    }

    /// Ranges, kind and permission of the area.
    pub open spec fn shape(&self) -> AreaShape {
        AreaShape {
            vpn_range: self.vpn_range,
            ppn_range: self.ppn_range,
            map_type: self.map_type,
            map_perm: self.map_perm,
        }
    }

    /// Same ranges, kind and permission.
    pub open spec fn same_shape(&self, other: &MapArea) -> bool {
        self.shape() == other.shape()
    }

    /// The area of the pages that `[start_va, end_va)` touches, laid over the
    /// pages that `[start_pa, end_pa)` touches where both are given.
    pub fn new(
        start_va: VirtAddr,
        end_va: VirtAddr,
        start_pa: Option<PhysAddr>,
        end_pa: Option<PhysAddr>,
        map_type: MapType,
        map_perm: MapPermission,
    ) -> (area: Self)
        ensures
            area.vpn_range.l.0 == page_floor(start_va.0 as int),
            area.vpn_range.r.0 == page_ceil(end_va.0 as int),
            area.ppn_range == match (start_pa, end_pa) {
                (Some(s), Some(e)) => Some(
                    (PPNRange {
                        l: PhysPageNum(page_floor(s.0 as int) as u64),
                        r: PhysPageNum(page_ceil(e.0 as int) as u64),
                    }),
                ),
                _ => None::<PPNRange>,
            },
            area.data_frames@ == Map::<u64, FrameTracker>::empty(),
            area.map_type == map_type,
            area.map_perm == map_perm,
    {
        let start_vpn: VirtPageNum = start_va.floor();
        let end_vpn: VirtPageNum = end_va.ceil();
        let ppn_range = match (start_pa, end_pa) {
            (Some(s), Some(e)) => Some(PPNRange::new(s.floor(), e.ceil())),
            _ => None,
        };
        MapArea {
            vpn_range: VPNRange::new(start_vpn, end_vpn),
            ppn_range,
            data_frames: BTreeMap::new(),
            map_type,
            map_perm,
        }
    }

    /// Maps the page `vpn`.  A linear area maps it to `ppn_`, and leaves a
    /// page that is mapped already as it is.  A framed area takes the next
    /// frame from `frames` for it.
    pub fn map_one(
        &mut self,
        page_table: &mut PageTable,
        frames: &mut FrameAllocator,
        vpn: VirtPageNum,
        ppn_: Option<PhysPageNum>,
    )
        requires
            old(self).map_type is Linear ==> ppn_ is Some,
            old(self).map_type is Framed ==> old(frames).wf() && old(frames).spec_available() > 0
                && !old(page_table)@.contains_key(vpn.0),
        ensures
            final(self).same_shape(old(self)),
            final(page_table).root() == old(page_table).root(),
            final(frames).limit() == old(frames).limit(),
            old(self).map_type is Linear ==> {
                &&& final(self).data_frames@ == old(self).data_frames@
                &&& final(frames).returned() == old(frames).returned()
                &&& final(frames).next_fresh() == old(frames).next_fresh()
                &&& final(page_table)@ == spec_map_page(
                    old(page_table)@,
                    vpn.0,
                    (PageTableEntry { ppn: ppn_.unwrap(), flags: old(self).spec_flags() }),
                )
            },
            old(self).map_type is Framed ==> {
                &&& final(frames).wf()
                &&& final(self).data_frames@ == old(self).data_frames@.insert(
                    vpn.0,
                    (FrameTracker { ppn: PhysPageNum(old(frames).spec_nth(0)) }),
                )
                &&& final(frames).returned() == old(frames).spec_returned_after(1)
                &&& final(frames).next_fresh() == old(frames).spec_fresh_after(1)
                &&& final(page_table)@ == old(page_table)@.insert(
                    vpn.0,
                    (PageTableEntry {
                        ppn: PhysPageNum(old(frames).spec_nth(0)),
                        flags: old(self).spec_flags(),
                    }),
                )
            },
    {
        let ppn: PhysPageNum;
        match self.map_type {
            MapType::Linear => {
                ppn = ppn_.unwrap();
            },
            MapType::Framed => {
                let frame = frames.frame_alloc().unwrap();
                ppn = frame.ppn;
                self.data_frames.insert(vpn.0, frame);
            },
        }
        page_table.map(vpn, ppn, self.map_perm.bits);
    }

    /// Removes the translation of `vpn`.  A framed area gives the frame of
    /// the page back to `frames`.
    pub fn unmap_one(
        &mut self,
        page_table: &mut PageTable,
        frames: &mut FrameAllocator,
        vpn: VirtPageNum,
    )
        requires
            old(frames).wf(),
        ensures
            final(self).same_shape(old(self)),
            final(frames).wf(),
            final(page_table).root() == old(page_table).root(),
            final(page_table)@ == old(page_table)@.remove(vpn.0),
            final(frames).limit() == old(frames).limit(),
            final(frames).next_fresh() == old(frames).next_fresh(),
            old(self).map_type is Framed ==> {
                &&& final(self).data_frames@ == old(self).data_frames@.remove(vpn.0)
                &&& final(frames).returned() == if old(self).data_frames@.contains_key(vpn.0) {
                    old(frames).returned().push(old(self).data_frames@[vpn.0].ppn.0)
                } else {
                    old(frames).returned()
                }
            },
            old(self).map_type is Linear ==> {
                &&& final(self).data_frames@ == old(self).data_frames@
                &&& final(frames).returned() == old(frames).returned()
            },
    {
        if self.map_type == MapType::Framed {
            match self.data_frames.remove(&vpn.0) {
                Some(frame) => {
                    frames.frame_dealloc(frame);
                },
                None => {},
            }
        }
        page_table.unmap(vpn);
    }

    /// Maps every page of the area, in rising order.  A linear area leaves
    /// pages that are mapped already as they are; a framed area takes one
    /// frame from `frames` for each page.
    pub fn map(&mut self, page_table: &mut PageTable, frames: &mut FrameAllocator)
        requires
            old(self).map_type is Linear ==> old(self).wf(),
            old(self).map_type is Framed ==> {
                &&& old(frames).wf()
                &&& old(frames).spec_available() >= old(self).vpn_range.spec_len()
                &&& forall|v: u64|
                    old(self).vpn_range.contains(v) ==> !#[trigger] old(page_table)@.contains_key(v)
            },
        ensures
            final(self).same_shape(old(self)),
            final(page_table).root() == old(page_table).root(),
            final(frames).limit() == old(frames).limit(),
            old(self).map_type is Linear ==> {
                &&& final(self).data_frames@ == old(self).data_frames@
                &&& final(frames).returned() == old(frames).returned()
                &&& final(frames).next_fresh() == old(frames).next_fresh()
                &&& final(page_table)@ == old(self).entries().union_prefer_right(
                    old(page_table)@,
                )
            },
            old(self).map_type is Framed ==> {
                &&& final(frames).wf()
                &&& final(self).data_frames@ == old(self).data_frames@.union_prefer_right(
                    spec_fresh_frames(
                        old(self).vpn_range.l.0,
                        old(self).vpn_range.r.0,
                        *old(frames),
                    ),
                )
                &&& final(frames).returned() == old(frames).spec_returned_after(
                    old(self).vpn_range.spec_len(),
                )
                &&& final(frames).next_fresh() == old(frames).spec_fresh_after(
                    old(self).vpn_range.spec_len(),
                )
                &&& final(page_table)@ == old(page_table)@.union_prefer_right(
                    spec_framed_entries(
                        spec_fresh_frames(
                            old(self).vpn_range.l.0,
                            old(self).vpn_range.r.0,
                            *old(frames),
                        ),
                        old(self).spec_flags(),
                    ),
                )
            },
    {
        let start: VirtPageNum = self.vpn_range.get_start();
        let end: VirtPageNum = self.vpn_range.get_end();
        let mut vpn: VirtPageNum = start;
        let ghost pt0 = page_table@;
        let ghost df0 = self.data_frames@;
        let ghost fa0 = *frames;
        let ghost flags = self.spec_flags();
        match self.map_type {
            MapType::Linear => {
                let first: PhysPageNum = self.ppn_range.unwrap().get_start();
                let mut ppn: PhysPageNum = first;
                while vpn.0 < end.0
                    invariant
                        self.same_shape(old(self)),
                        self.map_type is Linear,
                        old(self).wf(),
                        start == old(self).vpn_range.l,
                        end == old(self).vpn_range.r,
                        first == old(self).ppn_range.unwrap().l,
                        flags == old(self).spec_flags(),
                        start.0 <= vpn.0 <= end.0,
                        ppn.0 == first.0 + (vpn.0 - start.0),
                        self.data_frames@ == df0,
                        page_table.root() == old(page_table).root(),
                        frames.limit() == old(frames).limit(),
                        frames.returned() == old(frames).returned(),
                        frames.next_fresh() == old(frames).next_fresh(),
                        page_table@ == spec_linear_entries(
                            start.0,
                            vpn.0,
                            first.0,
                            flags,
                        ).union_prefer_right(pt0),
                    decreases end.0 - vpn.0,
                {
                    self.map_one(page_table, frames, vpn, Some(ppn));
                    assert(page_table@ =~= spec_linear_entries(
                        start.0,
                        (vpn.0 + 1) as u64,
                        first.0,
                        flags,
                    ).union_prefer_right(pt0));
                    vpn.step();
                    ppn.step();
                }
                assert(vpn.0 == end.0);
            },
            MapType::Framed => {
                while vpn.0 < end.0
                    invariant
                        self.same_shape(old(self)),
                        self.map_type is Framed,
                        start == old(self).vpn_range.l,
                        end == old(self).vpn_range.r,
                        flags == old(self).spec_flags(),
                        start.0 <= vpn.0,
                        vpn.0 <= end.0 || vpn.0 == start.0,
                        fa0 == *old(frames),
                        fa0.wf(),
                        fa0.spec_available() >= end.0 - start.0,
                        old(self).vpn_range.spec_len() == if start.0 <= end.0 {
                            end.0 - start.0
                        } else {
                            0
                        },
                        frames.wf(),
                        frames.limit() == fa0.limit(),
                        frames.returned() == fa0.spec_returned_after(vpn.0 - start.0),
                        frames.next_fresh() == fa0.spec_fresh_after(vpn.0 - start.0),
                        page_table.root() == old(page_table).root(),
                        pt0 == old(page_table)@,
                        forall|v: u64| start.0 <= v < end.0 ==> !#[trigger] pt0.contains_key(v),
                        self.data_frames@ == df0.union_prefer_right(
                            spec_fresh_frames(start.0, vpn.0, fa0),
                        ),
                        page_table@ == pt0.union_prefer_right(
                            spec_framed_entries(spec_fresh_frames(start.0, vpn.0, fa0), flags),
                        ),
                    decreases end.0 - vpn.0,
                {
                    assert(frames.spec_nth(0) == fa0.spec_nth(vpn.0 - start.0));
                    self.map_one(page_table, frames, vpn, None);
                    assert(self.data_frames@ =~= df0.union_prefer_right(
                        spec_fresh_frames(start.0, (vpn.0 + 1) as u64, fa0),
                    ));
                    assert(page_table@ =~= pt0.union_prefer_right(
                        spec_framed_entries(
                            spec_fresh_frames(start.0, (vpn.0 + 1) as u64, fa0),
                            flags,
                        ),
                    ));
                    vpn.step();
                }
                proof {
                    assert(spec_fresh_frames(start.0, vpn.0, fa0) =~= spec_fresh_frames(
                        start.0,
                        end.0,
                        fa0,
                    ));
                    assert(frames.returned() =~= fa0.spec_returned_after(
                        old(self).vpn_range.spec_len(),
                    ));
                }
            },
        }
    }

    /// Unmaps every page of the area, in rising order.  A framed area gives
    /// its frames of these pages back to `frames`.
    pub fn unmap(&mut self, page_table: &mut PageTable, frames: &mut FrameAllocator)
        requires
            old(frames).wf(),
        ensures
            final(self).same_shape(old(self)),
            final(frames).wf(),
            final(page_table).root() == old(page_table).root(),
            final(frames).limit() == old(frames).limit(),
            final(frames).next_fresh() == old(frames).next_fresh(),
            final(page_table)@ == old(page_table)@.remove_keys(
                Set::new(|v: u64| old(self).vpn_range.contains(v)),
            ),
            old(self).map_type is Framed ==> {
                &&& final(self).data_frames@ == old(self).data_frames@.remove_keys(
                    Set::new(|v: u64| old(self).vpn_range.contains(v)),
                )
                &&& final(frames).returned() == old(frames).returned() + spec_frames_in(
                    old(self).data_frames@,
                    old(self).vpn_range.l.0,
                    old(self).vpn_range.r.0,
                )
            },
            old(self).map_type is Linear ==> {
                &&& final(self).data_frames@ == old(self).data_frames@
                &&& final(frames).returned() == old(frames).returned()
            },
    {
        let start: VirtPageNum = self.vpn_range.get_start();
        let end: VirtPageNum = self.vpn_range.get_end();
        let mut vpn: VirtPageNum = start;
        let ghost pt0 = page_table@;
        let ghost df0 = self.data_frames@;
        while vpn.0 < end.0
            invariant
                self.same_shape(old(self)),
                start == old(self).vpn_range.l,
                end == old(self).vpn_range.r,
                start.0 <= vpn.0,
                vpn.0 <= end.0 || vpn.0 == start.0,
                pt0 == old(page_table)@,
                df0 == old(self).data_frames@,
                frames.wf(),
                page_table.root() == old(page_table).root(),
                frames.limit() == old(frames).limit(),
                frames.next_fresh() == old(frames).next_fresh(),
                page_table@ == pt0.remove_keys(Set::new(|v: u64| start.0 <= v < vpn.0)),
                self.map_type is Framed ==> {
                    &&& self.data_frames@ == df0.remove_keys(
                        Set::new(|v: u64| start.0 <= v < vpn.0),
                    )
                    &&& frames.returned() == old(frames).returned() + spec_frames_in(
                        df0,
                        start.0,
                        vpn.0,
                    )
                },
                self.map_type is Linear ==> {
                    &&& self.data_frames@ == df0
                    &&& frames.returned() == old(frames).returned()
                },
            decreases end.0 - vpn.0,
        {
            self.unmap_one(page_table, frames, vpn);
            assert(page_table@ =~= pt0.remove_keys(
                Set::new(|v: u64| start.0 <= v < (vpn.0 + 1) as u64),
            ));
            if self.map_type == MapType::Framed {
                assert(self.data_frames@ =~= df0.remove_keys(
                    Set::new(|v: u64| start.0 <= v < (vpn.0 + 1) as u64),
                ));
                assert(frames.returned() =~= old(frames).returned() + spec_frames_in(
                    df0,
                    start.0,
                    (vpn.0 + 1) as u64,
                ));
            }
            vpn.step();
        }
        proof {
            assert(Set::new(|v: u64| start.0 <= v < vpn.0) =~= Set::new(
                |v: u64| old(self).vpn_range.contains(v),
            ));
            if end.0 < start.0 {
                assert(spec_frames_in(df0, start.0, end.0) =~= Seq::<u64>::empty());
                assert(spec_frames_in(df0, start.0, vpn.0) =~= Seq::<u64>::empty());
            }
        }
    }

    /// Copies `data` into the frames of the area, page by page from its first
    /// page on.  The last page may be filled in part; what lies behind `data`
    /// in it stays as it was.
    pub fn copy_data(&mut self, page_table: &mut PageTable, mem: &mut PhysMemory, data: &[u8])
        requires
            old(self).map_type is Framed,
            old(self).vpn_range.l.0 + spec_page_count(data@.len() as int) - 1 <= u64::MAX,
            forall|k: int|
                0 <= k < spec_page_count(data@.len() as int) ==> {
                    &&& #[trigger] old(page_table)@.contains_key(
                        (old(self).vpn_range.l.0 + k) as u64,
                    )
                    &&& old(mem).holds(
                        old(page_table)@[(old(self).vpn_range.l.0 + k) as u64].ppn.0 * 4096,
                        4096,
                    )
                },
        ensures
            *final(self) == *old(self),
            *final(page_table) == *old(page_table),
            final(mem).spec_base() == old(mem).spec_base(),
            final(mem)@ == spec_copy_pages(
                old(mem)@,
                old(mem).spec_base() as int,
                old(page_table)@,
                old(self).vpn_range.l.0 as int,
                data@,
                spec_page_count(data@.len() as int) as nat,
            ),
    {
        proof {
            use_type_invariant(&*mem);
        }
        let len: usize = data.len();
        let mut start: usize = 0;
        let mut current_vpn: VirtPageNum = self.vpn_range.get_start();
        let ghost mut k: int = 0;
        let ghost first = self.vpn_range.l.0 as int;
        let ghost mem0 = mem@;
        while start < len
            invariant
                len == data@.len(),
                0 <= k <= spec_page_count(len as int),
                start == if k * 4096 < len {
                    k * 4096
                } else {
                    len as int
                },
                current_vpn.0 == first + k || (start == len && current_vpn.0 == first + k - 1),
                first == old(self).vpn_range.l.0,
                first + spec_page_count(len as int) - 1 <= u64::MAX,
                *self == *old(self),
                *page_table == *old(page_table),
                mem.wf(),
                mem.spec_base() == old(mem).spec_base(),
                mem@.len() == mem0.len(),
                mem0 == old(mem)@,
                forall|j: int|
                    0 <= j < spec_page_count(len as int) ==> {
                        &&& #[trigger] page_table@.contains_key((first + j) as u64)
                        &&& old(mem).holds(page_table@[(first + j) as u64].ppn.0 * 4096, 4096)
                    },
                mem@ == spec_copy_pages(
                    mem0,
                    mem.spec_base() as int,
                    page_table@,
                    first,
                    data@,
                    k as nat,
                ),
            decreases len - start,
        {
            let chunk: usize = if len - start < 4096 {
                len - start
            } else {
                4096
            };
            assert(page_table@.contains_key((first + k) as u64));
            let pte: PageTableEntry = page_table.translate(current_vpn).unwrap();
            let pa: u64 = pte.ppn.0 * 4096;
            let done: bool = mem.write(pa, data, start, chunk);
            assert(done);
            start = start + chunk;
            proof {
                k = k + 1;
            }
            if start < len {
                current_vpn.step();
            }
        }
    }
}

} // verus!

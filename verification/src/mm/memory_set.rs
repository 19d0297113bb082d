//! The memory sets of the hypervisor and of a guest: a page table and the
//! areas that are mapped into it.

use crate::address::{PPNRange, PhysAddr, PhysPageNum, VPNRange, VirtAddr, VirtPageNum};
use crate::address::{page_ceil, page_floor};
use crate::constants::{GUEST_START_PA, GUEST_START_VA, MEMORY_END, TRAMPOLINE, TRAP_CONTEXT};
use crate::csr::Csrs;
use crate::elf::{read_program_headers, spec_program_headers, spec_valid_image, ProgramHeader};
use crate::frame::{FrameAllocator, FrameTracker};
use crate::machine::{KernelLayout, MachineMeta};
use crate::memory::PhysMemory;
use crate::mm::map_area::{spec_framed_entries, spec_fresh_frames, spec_identity_shape};
use crate::mm::map_area::spec_linear_entries;
use crate::mm::map_area::{spec_linear_shape, spec_map_page, AreaShape, MapArea, MapPermission};
use crate::mm::map_area::{MapType, MAP_PERM_R, MAP_PERM_U, MAP_PERM_W, MAP_PERM_X};
use crate::mm::load::{page_count, plan_load, spec_loaded, spec_plan, spec_plan_end};
use crate::mm::load::{spec_plan_shapes, spec_scan_error, LoadStep};
use crate::mm::region::{add_device, add_devices, add_fixed, lemma_regions_ordered, ordered};
use crate::mm::region::{spec_device_regions, spec_devices_fit, spec_fixed_fits};
use crate::mm::region::{spec_identity_shapes, spec_opt_fits, spec_opt_fixed, spec_opt_region};
use crate::mm::region::{spec_ordered, spec_regions_ordered, spec_shape_holds, spec_shapes_hold};
use crate::mm::region::MemorySetError;
use crate::page_table::{spec_token, PageTable, PageTableEntry, PTE_R, PTE_V, PTE_W, PTE_X};
use vstd::prelude::*;

verus! {

broadcast use vstd::std_specs::btree::group_btree_axioms;

/// Number of the virtual page of the trampoline.
pub open spec fn spec_trampoline_vpn() -> u64 {
    0xf_ffff_ffff_ffff
}

/// The entry that maps the trampoline page to the physical page `ppn`:
/// readable and executable.
pub open spec fn spec_trampoline_entry(ppn: PhysPageNum) -> PageTableEntry {
    PageTableEntry { ppn, flags: (PTE_R | PTE_X) | PTE_V }
}

/// Whether one of the first `n` areas holds a translation for the page `v`.
pub open spec fn spec_covered(areas: Seq<MapArea>, n: int, v: u64) -> bool {
    exists|j: int| 0 <= j < n && j < areas.len() && #[trigger] areas[j].entries().contains_key(v)
}

/// Whether the page `v` is the trampoline page and the trampoline is
/// recorded as mapped.
pub open spec fn spec_is_trampoline(trampoline: Option<PhysPageNum>, v: u64) -> bool {
    trampoline is Some && v == spec_trampoline_vpn()
}

/// What holds of the parts of a memory set: each area is well formed, and
/// holds a frame for each of its pages if it is framed; the table maps
/// exactly the pages of the areas and, where recorded, the trampoline page;
/// the trampoline page, where recorded, has the trampoline's entry; and
/// every other page has the entry of the first area that holds it.
pub open spec fn spec_set_wf(
    pt: Map<u64, PageTableEntry>,
    areas: Seq<MapArea>,
    trampoline: Option<PhysPageNum>,
) -> bool {
    &&& forall|i: int| 0 <= i < areas.len() ==> (#[trigger] areas[i]).wf() && areas[i].backed()
    &&& forall|v: u64| #[trigger]
        pt.contains_key(v) ==> spec_is_trampoline(trampoline, v) || spec_covered(
            areas,
            areas.len() as int,
            v,
        )
    &&& trampoline matches Some(p) ==> pt.contains_key(spec_trampoline_vpn())
        && pt[spec_trampoline_vpn()] == spec_trampoline_entry(p)
    &&& forall|i: int, v: u64|
        0 <= i < areas.len() && #[trigger] areas[i].entries().contains_key(v) ==> {
            &&& pt.contains_key(v)
            &&& !spec_covered(areas, i, v) && !spec_is_trampoline(trampoline, v) ==> pt[v]
                == areas[i].entries()[v]
        }
}

/// The shapes of `areas`, in order.
pub open spec fn spec_shapes(areas: Seq<MapArea>) -> Seq<AreaShape> {
    areas.map_values(|a: MapArea| a.shape())
}

/// Maps `area` into `page_table` and appends it to `areas`.
fn push_area(
    page_table: &mut PageTable,
    areas: &mut Vec<MapArea>,
    trampoline: &Option<PhysPageNum>,
    frames: &mut FrameAllocator,
    area: MapArea,
)
    requires
        area.wf(),
        area.map_type is Framed ==> {
            &&& area.data_frames@ == Map::<u64, FrameTracker>::empty()
            &&& old(frames).wf()
            &&& old(frames).spec_available() >= area.vpn_range.spec_len()
            &&& forall|v: u64|
                area.vpn_range.contains(v) ==> !#[trigger] old(page_table)@.contains_key(v)
        },
    ensures
        final(page_table).root() == old(page_table).root(),
        final(frames).limit() == old(frames).limit(),
        final(areas)@.len() == old(areas)@.len() + 1,
        final(areas)@.subrange(0, old(areas)@.len() as int) == old(areas)@,
        final(areas)@.last().shape() == area.shape(),
        spec_shapes(final(areas)@) == spec_shapes(old(areas)@).push(area.shape()),
        forall|v: u64| #[trigger]
            old(page_table)@.contains_key(v) ==> final(page_table)@.contains_key(v) && final(page_table)@[v] == old(page_table)@[v],
        forall|v: u64| #[trigger]
            final(page_table)@.contains_key(v) ==> old(page_table)@.contains_key(v)
                || final(areas)@.last().entries().contains_key(v),
        area.map_type is Linear ==> {
            &&& final(areas)@.last().data_frames@ == Map::<u64, FrameTracker>::empty()
            &&& final(frames).returned() == old(frames).returned()
            &&& final(frames).next_fresh() == old(frames).next_fresh()
            &&& final(page_table)@ == area.entries().union_prefer_right(old(page_table)@)
        },
        area.map_type is Framed ==> {
            &&& final(frames).wf()
            &&& final(areas)@.last().data_frames@ == spec_fresh_frames(
                area.vpn_range.l.0,
                area.vpn_range.r.0,
                *old(frames),
            )
            &&& final(frames).returned() == old(frames).spec_returned_after(
                area.vpn_range.spec_len(),
            )
            &&& final(frames).next_fresh() == old(frames).spec_fresh_after(
                area.vpn_range.spec_len(),
            )
            &&& final(page_table)@ == old(page_table)@.union_prefer_right(
                final(areas)@.last().entries(),
            )
        },
        spec_set_wf(old(page_table)@, old(areas)@, *trampoline) ==> spec_set_wf(
            final(page_table)@,
            final(areas)@,
            *trampoline,
        ),
{
    let mut area = area;
    let ghost given = area;
    let ghost pt0 = page_table@;
    let ghost areas0 = areas@;
    area.map(page_table, frames);
    let ghost mapped = area;
    proof {
        if given.map_type is Framed {
            assert(mapped.data_frames@ =~= spec_fresh_frames(
                given.vpn_range.l.0,
                given.vpn_range.r.0,
                *old(frames),
            ));
            assert(mapped.entries() =~= spec_framed_entries(
                spec_fresh_frames(given.vpn_range.l.0, given.vpn_range.r.0, *old(frames)),
                given.spec_flags(),
            ));
        } else {
            assert(mapped.entries() =~= given.entries());
        }
    }
    areas.push(area);
    proof {
        assert(areas@.subrange(0, areas0.len() as int) =~= areas0);
        assert(spec_shapes(areas@) =~= spec_shapes(areas0).push(given.shape()));
        if spec_set_wf(pt0, areas0, *trampoline) {
            let n = areas0.len() as int;
            assert forall|i: int| 0 <= i < areas@.len() implies (#[trigger] areas@[i]).wf()
                && areas@[i].backed() by {
                if i < n {
                    assert(areas@[i] == areas0[i]);
                }
            }
            assert forall|v: u64| #[trigger] page_table@.contains_key(v) implies spec_is_trampoline(
                *trampoline,
                v,
            ) || spec_covered(areas@, areas@.len() as int, v) by {
                if pt0.contains_key(v) {
                    if !spec_is_trampoline(*trampoline, v) {
                        let j = choose|j: int|
                            0 <= j < n && j < areas0.len() && #[trigger] areas0[j].entries().contains_key(
                                v,
                            );
                        assert(areas@[j] == areas0[j]);
                        assert(areas@[j].entries().contains_key(v));
                    }
                } else {
                    assert(areas@[n].entries().contains_key(v));
                }
            }
            assert forall|i: int, v: u64|
                0 <= i < areas@.len() && #[trigger] areas@[i].entries().contains_key(v) implies {
                &&& page_table@.contains_key(v)
                &&& !spec_covered(areas@, i, v) && !spec_is_trampoline(*trampoline, v)
                    ==> page_table@[v] == areas@[i].entries()[v]
            } by {
                if i < n {
                    assert(areas@[i] == areas0[i]);
                    assert(areas0[i].entries().contains_key(v));
                    if !spec_covered(areas@, i, v) {
                        if spec_covered(areas0, i, v) {
                            let j = choose|j: int|
                                0 <= j < i && j < areas0.len() && #[trigger] areas0[j].entries().contains_key(
                                    v,
                                );
                            assert(areas@[j] == areas0[j]);
                            assert(areas@[j].entries().contains_key(v));
                        }
                    }
                } else {
                    if pt0.contains_key(v) && !spec_is_trampoline(*trampoline, v) {
                        let j = choose|j: int|
                            0 <= j < n && j < areas0.len() && #[trigger] areas0[j].entries().contains_key(
                                v,
                            );
                        assert(areas@[j] == areas0[j]);
                        assert(areas@[j].entries().contains_key(v));
                        assert(spec_covered(areas@, i, v));
                    }
                }
            }
        }
    }
}

/// Maps the trampoline page to the page of `code`, unless the trampoline
/// page is mapped already, and records the mapping where it was made.
fn map_trampoline_page(
    page_table: &mut PageTable,
    areas: &Vec<MapArea>,
    trampoline: &mut Option<PhysPageNum>,
    code: PhysAddr,
)
    ensures
        final(page_table).root() == old(page_table).root(),
        *final(trampoline) == if old(page_table)@.contains_key(spec_trampoline_vpn()) {
            *old(trampoline)
        } else {
            Some(PhysPageNum(page_floor(code.0 as int) as u64))
        },
        final(page_table)@ == spec_map_page(
            old(page_table)@,
            spec_trampoline_vpn(),
            spec_trampoline_entry(PhysPageNum(page_floor(code.0 as int) as u64)),
        ),
        spec_set_wf(old(page_table)@, areas@, *old(trampoline)) ==> spec_set_wf(
            final(page_table)@,
            areas@,
            *final(trampoline),
        ),
{
    let vpn: VirtPageNum = VirtAddr(TRAMPOLINE).floor();
    let ppn: PhysPageNum = code.floor();
    let ghost pt0 = page_table@;
    let installed: bool = page_table.map(vpn, ppn, PTE_R | PTE_X);
    if installed {
        *trampoline = Some(ppn);
    }
    proof {
        if spec_set_wf(pt0, areas@, *old(trampoline)) {
            assert forall|i: int, v: u64|
                0 <= i < areas@.len() && #[trigger] areas@[i].entries().contains_key(v) implies {
                &&& page_table@.contains_key(v)
                &&& !spec_covered(areas@, i, v) && !spec_is_trampoline(*trampoline, v)
                    ==> page_table@[v] == areas@[i].entries()[v]
            } by {
                assert(pt0.contains_key(v));
            }
        }
    }
}

/// Maps each of `regions` to itself with permission `perm`, one linear area
/// for each, in order.
fn push_regions(
    page_table: &mut PageTable,
    areas: &mut Vec<MapArea>,
    trampoline: &Option<PhysPageNum>,
    regions: &Vec<(u64, u64)>,
    perm: u8,
)
    requires
        spec_regions_ordered(regions@),
    ensures
        final(page_table).root() == old(page_table).root(),
        final(areas)@.len() == old(areas)@.len() + regions@.len(),
        final(areas)@.subrange(0, old(areas)@.len() as int) == old(areas)@,
        spec_shapes(final(areas)@) == spec_shapes(old(areas)@) + spec_identity_shapes(
            regions@,
            perm,
        ),
        forall|v: u64| #[trigger]
            old(page_table)@.contains_key(v) ==> final(page_table)@.contains_key(v) && final(page_table)@[v] == old(page_table)@[v],
        spec_set_wf(old(page_table)@, old(areas)@, *trampoline) ==> spec_set_wf(
            final(page_table)@,
            final(areas)@,
            *trampoline,
        ),
{
    // A linear area takes no frame.
    let mut unused = FrameAllocator::empty();
    let mut i: usize = 0;
    while i < regions.len()
        invariant
            i <= regions@.len(),
            spec_regions_ordered(regions@),
            page_table.root() == old(page_table).root(),
            areas@.len() == old(areas)@.len() + i,
            areas@.subrange(0, old(areas)@.len() as int) == old(areas)@,
            spec_shapes(areas@) == spec_shapes(old(areas)@) + spec_identity_shapes(
                regions@.subrange(0, i as int),
                perm,
            ),
            forall|v: u64| #[trigger]
                old(page_table)@.contains_key(v) ==> page_table@.contains_key(v) && page_table@[v]
                    == old(page_table)@[v],
            spec_set_wf(old(page_table)@, old(areas)@, *trampoline) ==> spec_set_wf(
                page_table@,
                areas@,
                *trampoline,
            ),
        decreases regions@.len() - i,
    {
        let (start, end) = regions[i];
        assert(spec_ordered(regions@[i as int].0 as int, regions@[i as int].1 as int));
        let area = MapArea::new(
            VirtAddr(start),
            VirtAddr(end),
            Some(PhysAddr(start)),
            Some(PhysAddr(end)),
            MapType::Linear,
            MapPermission::from_bits(perm),
        );
        assert(area.shape() == spec_identity_shape(start as int, end as int, perm));
        let ghost before = areas@;
        push_area(page_table, areas, trampoline, &mut unused, area);
        i = i + 1;
        proof {
            assert(areas@.subrange(0, old(areas)@.len() as int) =~= before.subrange(
                0,
                old(areas)@.len() as int,
            ));
            assert(spec_shapes(areas@) =~= spec_shapes(old(areas)@) + spec_identity_shapes(
                regions@.subrange(0, i as int),
                perm,
            ));
        }
    }
    assert(regions@.subrange(0, i as int) =~= regions@);
}

/// The address space of the hypervisor: its page table, the areas mapped
/// into it, and the physical page of the trampoline where that is mapped.
pub struct HostMemorySet {
    pub page_table: PageTable,
    pub areas: Vec<MapArea>,
    pub trampoline: Option<PhysPageNum>,
}

/// The guest-stage address space of one guest: guest physical pages to host
/// physical pages.
pub struct GuestMemorySet {
    pub page_table: PageTable,
    pub areas: Vec<MapArea>,
    pub trampoline: Option<PhysPageNum>,
}

impl HostMemorySet {
    /// The invariant of memory sets, on this one.
    pub open spec fn wf(&self) -> bool {
        spec_set_wf(self.page_table@, self.areas@, self.trampoline)
    }

    /// The shapes of the areas, in the order in which they were pushed.
    pub open spec fn shapes(&self) -> Seq<AreaShape> {
        spec_shapes(self.areas@)
    }

    /// A set without areas, its table rooted at `root`.
    pub fn new_bare(root: PhysPageNum) -> (set: Self)
        ensures
            set.wf(),
            set.page_table@ == Map::<u64, PageTableEntry>::empty(),
            set.page_table.root() == root,
            set.areas@ == Seq::<MapArea>::empty(),
            set.trampoline is None,
    {
        HostMemorySet { page_table: PageTable::new(root), areas: Vec::new(), trampoline: None }
    }

    /// Maps a linear `area` and appends it to the areas.  Pages that are
    /// mapped already keep their translation.
    pub fn push(&mut self, area: MapArea)
        requires
            area.wf(),
            area.map_type is Linear,
        ensures
            final(self).page_table.root() == old(self).page_table.root(),
            final(self).trampoline == old(self).trampoline,
            final(self).areas@.len() == old(self).areas@.len() + 1,
            final(self).areas@.subrange(0, old(self).areas@.len() as int) == old(self).areas@,
            final(self).areas@.last().shape() == area.shape(),
            final(self).areas@.last().data_frames@ == Map::<u64, FrameTracker>::empty(),
            final(self).shapes() == old(self).shapes().push(area.shape()),
            final(self).page_table@ == area.entries().union_prefer_right(old(self).page_table@),
            old(self).wf() ==> final(self).wf(),
    {
        // A linear area takes no frame.
    let mut unused = FrameAllocator::empty();
        push_area(&mut self.page_table, &mut self.areas, &self.trampoline, &mut unused, area);
    }

    /// Maps a framed `area`, taking one frame from `frames` for each of its
    /// pages, and appends it to the areas.
    pub fn push_framed(&mut self, area: MapArea, frames: &mut FrameAllocator)
        requires
            area.wf(),
            area.map_type is Framed,
            area.data_frames@ == Map::<u64, FrameTracker>::empty(),
            old(frames).wf(),
            old(frames).spec_available() >= area.vpn_range.spec_len(),
            forall|v: u64|
                area.vpn_range.contains(v) ==> !#[trigger] old(self).page_table@.contains_key(v),
        ensures
            final(self).page_table.root() == old(self).page_table.root(),
            final(self).trampoline == old(self).trampoline,
            final(frames).wf(),
            final(frames).limit() == old(frames).limit(),
            final(frames).returned() == old(frames).spec_returned_after(
                area.vpn_range.spec_len(),
            ),
            final(frames).next_fresh() == old(frames).spec_fresh_after(area.vpn_range.spec_len()),
            final(self).areas@.len() == old(self).areas@.len() + 1,
            final(self).areas@.subrange(0, old(self).areas@.len() as int) == old(self).areas@,
            final(self).areas@.last().shape() == area.shape(),
            final(self).areas@.last().data_frames@ == spec_fresh_frames(
                area.vpn_range.l.0,
                area.vpn_range.r.0,
                *old(frames),
            ),
            final(self).shapes() == old(self).shapes().push(area.shape()),
            final(self).page_table@ == old(self).page_table@.union_prefer_right(
                final(self).areas@.last().entries(),
            ),
            old(self).wf() ==> final(self).wf(),
    {
        push_area(&mut self.page_table, &mut self.areas, &self.trampoline, frames, area);
    }

    /// Maps the trampoline page to the page of `code`, readable and
    /// executable, unless the trampoline page is mapped already.
    pub fn map_trampoline(&mut self, code: PhysAddr)
        ensures
            final(self).page_table.root() == old(self).page_table.root(),
            final(self).areas@ == old(self).areas@,
            final(self).trampoline == if old(self).page_table@.contains_key(
                spec_trampoline_vpn(),
            ) {
                old(self).trampoline
            } else {
                Some(PhysPageNum(page_floor(code.0 as int) as u64))
            },
            final(self).page_table@ == spec_map_page(
                old(self).page_table@,
                spec_trampoline_vpn(),
                spec_trampoline_entry(PhysPageNum(page_floor(code.0 as int) as u64)),
            ),
            old(self).wf() ==> final(self).wf(),
    {
        map_trampoline_page(&mut self.page_table, &self.areas, &mut self.trampoline, code);
    }

    /// Makes this address space the one of the hart: the root token of its
    /// table goes to the translation register.
    pub fn activate(&self, csrs: &mut Csrs)
        ensures
            *final(csrs) == (Csrs { satp: spec_token(self.page_table.root().0), ..*old(csrs) }),
    {
        csrs.satp = self.page_table.token();
    }

    /// Maps the physical memory `[start_pa, start_pa + gpm_size)` of a guest
    /// to itself, readable and writable.
    pub fn map_guest(&mut self, start_pa: u64, gpm_size: u64)
        requires
            start_pa + gpm_size <= u64::MAX,
        ensures
            final(self).page_table.root() == old(self).page_table.root(),
            final(self).trampoline == old(self).trampoline,
            final(self).areas@.subrange(0, old(self).areas@.len() as int) == old(self).areas@,
            final(self).shapes() == old(self).shapes().push(
                spec_identity_shape(
                    start_pa as int,
                    start_pa + gpm_size,
                    MAP_PERM_R | MAP_PERM_W,
                ),
            ),
            final(self).page_table@ == spec_linear_entries(
                page_floor(start_pa as int) as u64,
                page_ceil(start_pa + gpm_size) as u64,
                page_floor(start_pa as int) as u64,
                (MAP_PERM_R | MAP_PERM_W) | PTE_V,
            ).union_prefer_right(old(self).page_table@),
            old(self).wf() ==> final(self).wf(),
    {
        let end: u64 = start_pa + gpm_size;
        let area = MapArea::new(
            VirtAddr(start_pa),
            VirtAddr(end),
            Some(PhysAddr(start_pa)),
            Some(PhysAddr(end)),
            MapType::Linear,
            MapPermission::from_bits(MAP_PERM_R | MAP_PERM_W),
        );
        self.push(area);
    }

    /// Whether the hypervisor can map the physical pages of `area` to
    /// themselves: the area is linear, its physical pages are an ordered
    /// range, and the range ends inside the address space.
    pub open spec fn spec_mappable(area: MapArea) -> bool {
        &&& area.map_type is Linear
        &&& area.ppn_range matches Some(p) && p.l.0 <= p.r.0 && p.r.0 * 4096 <= u64::MAX
    }

    /// The shapes of the areas that map the physical pages of each of
    /// `areas` to themselves, with the permission of the area.
    pub open spec fn spec_gpm_shapes(areas: Seq<MapArea>) -> Seq<AreaShape> {
        Seq::new(
            areas.len(),
            |i: int|
                spec_identity_shape(
                    areas[i].ppn_range.unwrap().l.0 * 4096,
                    areas[i].ppn_range.unwrap().r.0 * 4096,
                    areas[i].map_perm.bits,
                ),
        )
    }

    /// Maps the physical pages of each area of the guest `gpm` to themselves,
    /// with the permission that the guest has on them, so that the
    /// hypervisor reaches guest memory at its physical addresses.  Nothing
    /// is mapped unless every area of the guest can be mapped so; the result
    /// says whether it was done.
    pub fn map_gpm(&mut self, gpm: &GuestMemorySet) -> (done: bool)
        ensures
            done == (forall|i: int|
                0 <= i < gpm.areas@.len() ==> Self::spec_mappable(#[trigger] gpm.areas@[i])),
            final(self).page_table.root() == old(self).page_table.root(),
            final(self).trampoline == old(self).trampoline,
            done ==> {
                &&& final(self).areas@.subrange(0, old(self).areas@.len() as int) == old(self).areas@
                &&& final(self).shapes() == old(self).shapes() + Self::spec_gpm_shapes(gpm.areas@)
                &&& (old(self).wf() ==> final(self).wf())
            },
            !done ==> final(self).areas@ == old(self).areas@ && final(self).page_table@ == old(self).page_table@,
    {
        let mut i: usize = 0;
        while i < gpm.areas.len()
            invariant
                i <= gpm.areas@.len(),
                forall|j: int| 0 <= j < i ==> Self::spec_mappable(#[trigger] gpm.areas@[j]),
            decreases gpm.areas@.len() - i,
        {
            let area: &MapArea = &gpm.areas[i];
            let fine: bool = match (area.map_type, area.ppn_range) {
                (MapType::Linear, Some(p)) => p.l.0 <= p.r.0 && p.r.0 <= u64::MAX / 4096,
                _ => false,
            };
            if !fine {
                assert(!Self::spec_mappable(gpm.areas@[i as int]));
                return false;
            }
            i = i + 1;
        }
        let mut k: usize = 0;
        while k < gpm.areas.len()
            invariant
                k <= gpm.areas@.len(),
                forall|j: int|
                    0 <= j < gpm.areas@.len() ==> Self::spec_mappable(#[trigger] gpm.areas@[j]),
                self.page_table.root() == old(self).page_table.root(),
                self.trampoline == old(self).trampoline,
                self.areas@.len() == old(self).areas@.len() + k,
                self.areas@.subrange(0, old(self).areas@.len() as int) == old(self).areas@,
                self.shapes() == old(self).shapes() + Self::spec_gpm_shapes(
                    gpm.areas@.subrange(0, k as int),
                ),
                old(self).wf() ==> self.wf(),
            decreases gpm.areas@.len() - k,
        {
            let area: &MapArea = &gpm.areas[k];
            assert(Self::spec_mappable(gpm.areas@[k as int]));
            let ppn_range: PPNRange = area.ppn_range.unwrap();
            let start: u64 = ppn_range.get_start().0 * 4096;
            let end: u64 = ppn_range.get_end().0 * 4096;
            let ghost before = self.areas@;
            push_linear(
                &mut self.page_table,
                &mut self.areas,
                &self.trampoline,
                start,
                end,
                start,
                end,
                area.map_perm.bits,
            );
            k = k + 1;
            proof {
                assert(self.areas@.subrange(0, old(self).areas@.len() as int) =~= before.subrange(
                    0,
                    old(self).areas@.len() as int,
                ));
                assert(self.shapes() =~= old(self).shapes() + Self::spec_gpm_shapes(
                    gpm.areas@.subrange(0, k as int),
                ));
            }
        }
        assert(gpm.areas@.subrange(0, k as int) =~= gpm.areas@);
        true
    }

    /// The shapes of the areas of the hypervisor's address space on the
    /// machine `machine`, with its image laid out as `layout` says: the trap
    /// context page, framed; the sections of the image and the memory behind
    /// it; the test finisher, the virtio devices and the interrupt
    /// controller.
    pub open spec fn spec_host_shapes(machine: MachineMeta, layout: KernelLayout) -> Seq<
        AreaShape,
    > {
        seq![
            AreaShape {
                vpn_range: VPNRange {
                    l: VirtPageNum(page_floor(TRAP_CONTEXT as int) as u64),
                    r: VirtPageNum(page_ceil(TRAMPOLINE as int) as u64),
                },
                ppn_range: None,
                map_type: MapType::Framed,
                map_perm: MapPermission { bits: MAP_PERM_R | MAP_PERM_W },
            },
            spec_identity_shape(layout.stext as int, layout.etext as int, MAP_PERM_R | MAP_PERM_X),
            spec_identity_shape(layout.srodata as int, layout.erodata as int, MAP_PERM_R),
        ] + spec_identity_shapes(
            Self::spec_host_regions(machine, layout),
            MAP_PERM_R | MAP_PERM_W,
        )
    }

    /// The regions that the hypervisor maps to themselves, readable and
    /// writable.
    pub open spec fn spec_host_regions(machine: MachineMeta, layout: KernelLayout) -> Seq<
        (u64, u64),
    > {
        seq![
            (layout.sdata, layout.edata),
            (layout.sbss_with_stack, layout.ebss),
            (layout.ekernel, MEMORY_END),
        ] + spec_opt_region(machine.test_finisher_address, 0) + spec_device_regions(
            machine.virtio@,
        ) + spec_opt_region(machine.plic, 0)
    }

    /// Whether each section of the image touches an ordered run of pages.
    pub open spec fn spec_layout_ordered(layout: KernelLayout) -> bool {
        &&& spec_ordered(layout.stext as int, layout.etext as int)
        &&& spec_ordered(layout.srodata as int, layout.erodata as int)
        &&& spec_ordered(layout.sdata as int, layout.edata as int)
        &&& spec_ordered(layout.sbss_with_stack as int, layout.ebss as int)
        &&& spec_ordered(layout.ekernel as int, MEMORY_END as int)
    }

    /// Why the hypervisor's address space cannot be built, if it cannot.
    pub open spec fn spec_host_error(
        machine: MachineMeta,
        layout: KernelLayout,
        frames: FrameAllocator,
    ) -> Option<MemorySetError> {
        if !Self::spec_layout_ordered(layout) {
            Some(MemorySetError::BadLayout)
        } else if !(spec_opt_fits(machine.test_finisher_address, 0) && spec_devices_fit(
            machine.virtio@,
        ) && spec_opt_fits(machine.plic, 0)) {
            Some(MemorySetError::RegionOverflow)
        } else if frames.spec_available() < 1 {
            Some(MemorySetError::OutOfFrames)
        } else {
            None
        }
    }

    /// The address space of the hypervisor: the trampoline page, the trap
    /// context page on a frame of its own, the sections of the image and the
    /// memory behind it, and the devices, each mapped to itself.
    pub fn new_host_vmm(
        machine: &MachineMeta,
        layout: &KernelLayout,
        root: PhysPageNum,
        frames: &mut FrameAllocator,
    ) -> (r: Result<Self, MemorySetError>)
        requires
            old(frames).wf(),
        ensures
            final(frames).wf(),
            final(frames).limit() == old(frames).limit(),
            r matches Err(e) ==> {
                &&& Self::spec_host_error(*machine, *layout, *old(frames)) == Some(e)
                &&& final(frames).returned() == old(frames).returned()
                &&& final(frames).next_fresh() == old(frames).next_fresh()
            },
            r matches Ok(set) ==> {
                &&& Self::spec_host_error(*machine, *layout, *old(frames)) is None
                &&& set.wf()
                &&& set.page_table.root() == root
                &&& set.trampoline == Some(PhysPageNum(page_floor(layout.strampoline as int) as u64))
                &&& set.shapes() == Self::spec_host_shapes(*machine, *layout)
                &&& set.areas@[0].data_frames@ == spec_fresh_frames(
                    page_floor(TRAP_CONTEXT as int) as u64,
                    page_ceil(TRAMPOLINE as int) as u64,
                    *old(frames),
                )
                &&& forall|i: int|
                    1 <= i < set.areas@.len() ==> (#[trigger] set.areas@[i]).data_frames@
                        == Map::<u64, FrameTracker>::empty()
                &&& final(frames).returned() == old(frames).spec_returned_after(1)
                &&& final(frames).next_fresh() == old(frames).spec_fresh_after(1)
            },
    {
        if !(ordered(layout.stext, layout.etext) && ordered(layout.srodata, layout.erodata)
            && ordered(layout.sdata, layout.edata) && ordered(layout.sbss_with_stack, layout.ebss)
            && ordered(layout.ekernel, MEMORY_END)) {
            return Err(MemorySetError::BadLayout);
        }
        let mut regions: Vec<(u64, u64)> = Vec::new();
        regions.push((layout.sdata, layout.edata));
        regions.push((layout.sbss_with_stack, layout.ebss));
        regions.push((layout.ekernel, MEMORY_END));
        let ghost fixed = regions@;
        if !add_device(&mut regions, &machine.test_finisher_address, 0) {
            return Err(MemorySetError::RegionOverflow);
        }
        if !add_devices(&mut regions, &machine.virtio) {
            return Err(MemorySetError::RegionOverflow);
        }
        if !add_device(&mut regions, &machine.plic, 0) {
            return Err(MemorySetError::RegionOverflow);
        }
        if !frames.has_available(1) {
            return Err(MemorySetError::OutOfFrames);
        }
        proof {
            assert(fixed =~= seq![
                (layout.sdata, layout.edata),
                (layout.sbss_with_stack, layout.ebss),
                (layout.ekernel, MEMORY_END),
            ]);
            assert(regions@ =~= Self::spec_host_regions(*machine, *layout));
            lemma_regions_ordered(fixed, spec_opt_region(machine.test_finisher_address, 0));
            lemma_regions_ordered(
                fixed + spec_opt_region(machine.test_finisher_address, 0),
                spec_device_regions(machine.virtio@),
            );
            lemma_regions_ordered(
                fixed + spec_opt_region(machine.test_finisher_address, 0) + spec_device_regions(
                    machine.virtio@,
                ),
                spec_opt_region(machine.plic, 0),
            );
        }
        let mut hpm = Self::new_bare(root);
        hpm.map_trampoline(PhysAddr(layout.strampoline));
        let context = MapArea::new(
            VirtAddr(TRAP_CONTEXT),
            VirtAddr(TRAMPOLINE),
            None,
            None,
            MapType::Framed,
            MapPermission::from_bits(MAP_PERM_R | MAP_PERM_W),
        );
        hpm.push_framed(context, frames);
        let ghost first = hpm.areas@[0];
        let mut text: Vec<(u64, u64)> = Vec::new();
        text.push((layout.stext, layout.etext));
        push_regions(
            &mut hpm.page_table,
            &mut hpm.areas,
            &hpm.trampoline,
            &text,
            MAP_PERM_R | MAP_PERM_X,
        );
        let mut rodata: Vec<(u64, u64)> = Vec::new();
        rodata.push((layout.srodata, layout.erodata));
        push_regions(&mut hpm.page_table, &mut hpm.areas, &hpm.trampoline, &rodata, MAP_PERM_R);
        let ghost head = hpm.areas@;
        push_regions(
            &mut hpm.page_table,
            &mut hpm.areas,
            &hpm.trampoline,
            &regions,
            MAP_PERM_R | MAP_PERM_W,
        );
        proof {
            assert(hpm.shapes() =~= Self::spec_host_shapes(*machine, *layout));
            assert(hpm.areas@[0] == hpm.areas@.subrange(0, head.len() as int)[0]);
            assert(head[0] == first);
            lemma_linear_shapes_hold_no_frames(hpm.page_table@, hpm.areas@, hpm.trampoline);
        }
        Ok(hpm)
    }
}

/// In a well-formed set, a linear area holds no frames.
proof fn lemma_linear_shapes_hold_no_frames(
    pt: Map<u64, PageTableEntry>,
    areas: Seq<MapArea>,
    trampoline: Option<PhysPageNum>,
)
    requires
        spec_set_wf(pt, areas, trampoline),
    ensures
        forall|i: int|
            0 <= i < areas.len() && spec_shapes(areas)[i].map_type is Linear ==> (
            #[trigger] areas[i]).data_frames@ == Map::<u64, FrameTracker>::empty(),
{
    assert forall|i: int|
        0 <= i < areas.len() && spec_shapes(areas)[i].map_type is Linear implies (
    #[trigger] areas[i]).data_frames@ == Map::<u64, FrameTracker>::empty() by {
        assert(areas[i].wf());
    }
}

/// Maps the pages of `[start_va, end_va)` to the pages of
/// `[start_pa, end_pa)` with permission `perm`, as one linear area.
fn push_linear(
    page_table: &mut PageTable,
    areas: &mut Vec<MapArea>,
    trampoline: &Option<PhysPageNum>,
    start_va: u64,
    end_va: u64,
    start_pa: u64,
    end_pa: u64,
    perm: u8,
)
    requires
        spec_ordered(start_va as int, end_va as int),
        page_ceil(end_va as int) - page_floor(start_va as int) == page_ceil(end_pa as int)
            - page_floor(start_pa as int),
    ensures
        final(page_table).root() == old(page_table).root(),
        final(areas)@.len() == old(areas)@.len() + 1,
        final(areas)@.subrange(0, old(areas)@.len() as int) == old(areas)@,
        spec_shapes(final(areas)@) == spec_shapes(old(areas)@).push(
            spec_linear_shape(
                start_va as int,
                end_va as int,
                start_pa as int,
                end_pa as int,
                perm,
            ),
        ),
        forall|v: u64| #[trigger]
            old(page_table)@.contains_key(v) ==> final(page_table)@.contains_key(v) && final(page_table)@[v] == old(page_table)@[v],
        spec_set_wf(old(page_table)@, old(areas)@, *trampoline) ==> spec_set_wf(
            final(page_table)@,
            final(areas)@,
            *trampoline,
        ),
{
    // A linear area takes no frame.
    let mut unused = FrameAllocator::empty();
    let area = MapArea::new(
        VirtAddr(start_va),
        VirtAddr(end_va),
        Some(PhysAddr(start_pa)),
        Some(PhysAddr(end_pa)),
        MapType::Linear,
        MapPermission::from_bits(perm),
    );
    push_area(page_table, areas, trampoline, &mut unused, area);
}

/// In a well-formed set without a recorded trampoline, the table holds
/// exactly the pages that the areas hold.
proof fn lemma_mapped_iff_held(pt: Map<u64, PageTableEntry>, areas: Seq<MapArea>, v: u64)
    requires
        spec_set_wf(pt, areas, None),
        forall|i: int| 0 <= i < areas.len() ==> (#[trigger] areas[i]).map_type is Linear,
    ensures
        pt.contains_key(v) <==> spec_shapes_hold(spec_shapes(areas), v),
{
    if pt.contains_key(v) {
        let j = choose|j: int|
            0 <= j < areas.len() && j < areas.len() && #[trigger] areas[j].entries().contains_key(v);
        assert(areas[j].map_type is Linear);
        assert(spec_shape_holds(spec_shapes(areas)[j], v));
    }
    if spec_shapes_hold(spec_shapes(areas), v) {
        let j = choose|j: int|
            0 <= j < spec_shapes(areas).len() && spec_shape_holds(
                #[trigger] spec_shapes(areas)[j],
                v,
            );
        assert(areas[j].map_type is Linear);
        assert(areas[j].entries().contains_key(v));
    }
}

/// A set whose shapes are all linear holds linear areas only.
proof fn lemma_all_linear(areas: Seq<MapArea>)
    requires
        forall|i: int|
            0 <= i < spec_shapes(areas).len() ==> (#[trigger] spec_shapes(areas)[i]).map_type
                is Linear,
    ensures
        forall|i: int| 0 <= i < areas.len() ==> (#[trigger] areas[i]).map_type is Linear,
{
    assert forall|i: int| 0 <= i < areas.len() implies (#[trigger] areas[i]).map_type
        is Linear by {
        assert(spec_shapes(areas)[i].map_type is Linear);
    }
}

impl GuestMemorySet {
    /// The invariant of memory sets, on this one.
    pub open spec fn wf(&self) -> bool {
        spec_set_wf(self.page_table@, self.areas@, self.trampoline)
    }

    /// The shapes of the areas, in the order in which they were pushed.
    pub open spec fn shapes(&self) -> Seq<AreaShape> {
        spec_shapes(self.areas@)
    }

    /// Every area is linear.
    pub open spec fn all_linear(&self) -> bool {
        forall|i: int| 0 <= i < self.areas@.len() ==> (#[trigger] self.areas@[i]).map_type is Linear
    }

    /// A set without areas.  The root of its table starts at a multiple of
    /// four pages.
    pub fn new_guest_bare(root: PhysPageNum) -> (set: Self)
        requires
            root.0 % 4 == 0,
        ensures
            set.wf(),
            set.page_table@ == Map::<u64, PageTableEntry>::empty(),
            set.page_table.root() == root,
            set.areas@ == Seq::<MapArea>::empty(),
            set.trampoline is None,
    {
        GuestMemorySet {
            page_table: PageTable::new_guest(root),
            areas: Vec::new(),
            trampoline: None,
        }
    }

    /// Maps a linear `area` and appends it to the areas.  Pages that are
    /// mapped already keep their translation.
    pub fn push(&mut self, area: MapArea)
        requires
            area.wf(),
            area.map_type is Linear,
        ensures
            final(self).page_table.root() == old(self).page_table.root(),
            final(self).trampoline == old(self).trampoline,
            final(self).areas@.len() == old(self).areas@.len() + 1,
            final(self).areas@.subrange(0, old(self).areas@.len() as int) == old(self).areas@,
            final(self).areas@.last().shape() == area.shape(),
            final(self).areas@.last().data_frames@ == Map::<u64, FrameTracker>::empty(),
            final(self).shapes() == old(self).shapes().push(area.shape()),
            final(self).page_table@ == area.entries().union_prefer_right(old(self).page_table@),
            old(self).wf() ==> final(self).wf(),
    {
        // A linear area takes no frame.
    let mut unused = FrameAllocator::empty();
        push_area(&mut self.page_table, &mut self.areas, &self.trampoline, &mut unused, area);
    }

    /// Maps the trampoline page to the page of `code`, readable and
    /// executable, unless the trampoline page is mapped already.
    pub fn map_trampoline(&mut self, code: PhysAddr)
        ensures
            final(self).page_table.root() == old(self).page_table.root(),
            final(self).areas@ == old(self).areas@,
            final(self).trampoline == if old(self).page_table@.contains_key(
                spec_trampoline_vpn(),
            ) {
                old(self).trampoline
            } else {
                Some(PhysPageNum(page_floor(code.0 as int) as u64))
            },
            final(self).page_table@ == spec_map_page(
                old(self).page_table@,
                spec_trampoline_vpn(),
                spec_trampoline_entry(PhysPageNum(page_floor(code.0 as int) as u64)),
            ),
            old(self).wf() ==> final(self).wf(),
    {
        map_trampoline_page(&mut self.page_table, &self.areas, &mut self.trampoline, code);
    }

    /// The memory that a guest gets when nothing is loaded for it: from two
    /// mebibytes below the machine's memory to its end.
    pub open spec fn spec_plain_memory(machine: MachineMeta) -> Seq<(u64, u64)> {
        seq![
            (
                (machine.physical_memory_offset - 0x20_0000) as u64,
                (machine.physical_memory_offset + machine.physical_memory_size) as u64,
            ),
        ]
    }

    /// The devices that a guest gets when nothing is loaded for it, but for
    /// the test finisher.
    pub open spec fn spec_plain_devices(machine: MachineMeta) -> Seq<(u64, u64)> {
        spec_device_regions(machine.virtio@) + spec_opt_region(machine.uart, 0) + spec_opt_region(
            machine.clint,
            0,
        ) + spec_opt_fixed(machine.plic, 0x20_0000) + spec_opt_fixed(machine.pci, 0x20_0000)
    }

    /// The shapes of the areas of a guest for which nothing is loaded: its
    /// memory, the test finisher with one page more, and the devices, each
    /// mapped to itself.
    pub open spec fn spec_plain_shapes(machine: MachineMeta) -> Seq<AreaShape> {
        spec_identity_shapes(
            Self::spec_plain_memory(machine),
            MAP_PERM_R | MAP_PERM_W | MAP_PERM_U | MAP_PERM_X,
        ) + spec_identity_shapes(
            spec_opt_region(machine.test_finisher_address, 0x1000),
            MAP_PERM_R | MAP_PERM_W | MAP_PERM_U | MAP_PERM_X,
        ) + spec_identity_shapes(
            Self::spec_plain_devices(machine),
            MAP_PERM_R | MAP_PERM_W | MAP_PERM_U,
        )
    }

    /// Whether the memory and the devices of `machine` fit in the address
    /// space as `new_guest_without_load` lays them out.
    pub open spec fn spec_plain_fits(machine: MachineMeta) -> bool {
        &&& machine.physical_memory_offset >= 0x20_0000
        &&& machine.physical_memory_offset + machine.physical_memory_size <= u64::MAX
        &&& spec_opt_fits(machine.test_finisher_address, 0x1000)
        &&& spec_devices_fit(machine.virtio@)
        &&& spec_opt_fits(machine.uart, 0)
        &&& spec_opt_fits(machine.clint, 0)
        &&& spec_fixed_fits(machine.plic, 0x20_0000)
        &&& spec_fixed_fits(machine.pci, 0x20_0000)
    }

    /// The address space of a guest that an earlier stage has loaded: the
    /// machine's memory from two mebibytes below its start, the trampoline
    /// page, and the devices, each mapped to itself.
    pub fn new_guest_without_load(
        guest_machine: &MachineMeta,
        root: PhysPageNum,
        code: PhysAddr,
    ) -> (r: Result<Self, MemorySetError>)
        requires
            root.0 % 4 == 0,
        ensures
            r is Ok <==> Self::spec_plain_fits(*guest_machine),
            r matches Err(e) ==> e == MemorySetError::RegionOverflow,
            r matches Ok(set) ==> {
                &&& set.wf()
                &&& set.all_linear()
                &&& set.page_table.root() == root
                &&& set.shapes() == Self::spec_plain_shapes(*guest_machine)
                &&& set.trampoline == if spec_shapes_hold(
                    spec_identity_shapes(
                        Self::spec_plain_memory(*guest_machine),
                        MAP_PERM_R | MAP_PERM_W | MAP_PERM_U | MAP_PERM_X,
                    ),
                    spec_trampoline_vpn(),
                ) {
                    None::<PhysPageNum>
                } else {
                    Some(PhysPageNum(page_floor(code.0 as int) as u64))
                }
            },
    {
        let offset: u64 = guest_machine.physical_memory_offset;
        let size: u64 = guest_machine.physical_memory_size;
        if offset < 0x20_0000 || size > u64::MAX - offset {
            return Err(MemorySetError::RegionOverflow);
        }
        let mut memory: Vec<(u64, u64)> = Vec::new();
        memory.push((offset - 0x20_0000, offset + size));
        let mut test: Vec<(u64, u64)> = Vec::new();
        if !add_device(&mut test, &guest_machine.test_finisher_address, 0x1000) {
            return Err(MemorySetError::RegionOverflow);
        }
        let mut devices: Vec<(u64, u64)> = Vec::new();
        if !add_devices(&mut devices, &guest_machine.virtio) {
            return Err(MemorySetError::RegionOverflow);
        }
        let ghost d1 = devices@;
        if !add_device(&mut devices, &guest_machine.uart, 0) {
            return Err(MemorySetError::RegionOverflow);
        }
        let ghost d2 = devices@;
        if !add_device(&mut devices, &guest_machine.clint, 0) {
            return Err(MemorySetError::RegionOverflow);
        }
        let ghost d3 = devices@;
        if !add_fixed(&mut devices, &guest_machine.plic, 0x20_0000) {
            return Err(MemorySetError::RegionOverflow);
        }
        let ghost d4 = devices@;
        if !add_fixed(&mut devices, &guest_machine.pci, 0x20_0000) {
            return Err(MemorySetError::RegionOverflow);
        }
        proof {
            let empty = Seq::<(u64, u64)>::empty();
            assert(memory@ =~= Self::spec_plain_memory(*guest_machine));
            assert(test@ =~= spec_opt_region(guest_machine.test_finisher_address, 0x1000));
            assert(devices@ =~= Self::spec_plain_devices(*guest_machine));
            lemma_regions_ordered(empty, memory@);
            assert(empty + memory@ =~= memory@);
            lemma_regions_ordered(empty, test@);
            assert(empty + test@ =~= test@);
            assert(d1 =~= spec_device_regions(guest_machine.virtio@));
            lemma_regions_ordered(empty, d1);
            assert(empty + d1 =~= d1);
            lemma_regions_ordered(d1, spec_opt_region(guest_machine.uart, 0));
            lemma_regions_ordered(d2, spec_opt_region(guest_machine.clint, 0));
            lemma_regions_ordered(d3, spec_opt_fixed(guest_machine.plic, 0x20_0000));
            lemma_regions_ordered(d4, spec_opt_fixed(guest_machine.pci, 0x20_0000));
        }
        let mut gpm = Self::new_guest_bare(root);
        push_regions(
            &mut gpm.page_table,
            &mut gpm.areas,
            &gpm.trampoline,
            &memory,
            MAP_PERM_R | MAP_PERM_W | MAP_PERM_U | MAP_PERM_X,
        );
        proof {
            assert(gpm.shapes() =~= spec_identity_shapes(
                memory@,
                MAP_PERM_R | MAP_PERM_W | MAP_PERM_U | MAP_PERM_X,
            ));
            lemma_all_linear(gpm.areas@);
            lemma_mapped_iff_held(gpm.page_table@, gpm.areas@, spec_trampoline_vpn());
        }
        gpm.map_trampoline(code);
        push_regions(
            &mut gpm.page_table,
            &mut gpm.areas,
            &gpm.trampoline,
            &test,
            MAP_PERM_R | MAP_PERM_W | MAP_PERM_U | MAP_PERM_X,
        );
        push_regions(
            &mut gpm.page_table,
            &mut gpm.areas,
            &gpm.trampoline,
            &devices,
            MAP_PERM_R | MAP_PERM_W | MAP_PERM_U,
        );
        proof {
            assert(gpm.shapes() =~= Self::spec_plain_shapes(*guest_machine));
            lemma_all_linear(gpm.areas@);
        }
        Ok(gpm)
    }

    /// The steps that load the image `data`.
    pub open spec fn spec_guest_plan(data: Seq<u8>) -> Seq<LoadStep> {
        spec_plan(spec_program_headers(data), spec_program_headers(data).len() as int)
    }

    /// The shape of the area that covers what the segments of `plan` leave
    /// of a guest memory of `gpm_size` bytes.
    pub open spec fn spec_rest_shape(plan: Seq<LoadStep>, gpm_size: int) -> AreaShape {
        spec_linear_shape(
            spec_plan_end(plan) - GUEST_START_PA + GUEST_START_VA,
            GUEST_START_VA + gpm_size,
            spec_plan_end(plan),
            GUEST_START_PA + gpm_size,
            MAP_PERM_R | MAP_PERM_W | MAP_PERM_U | MAP_PERM_X,
        )
    }

    /// The shapes of the areas of guest memory: one for each loaded segment,
    /// and one for the rest of the memory.
    pub open spec fn spec_guest_memory_shapes(data: Seq<u8>, gpm_size: int) -> Seq<AreaShape> {
        spec_plan_shapes(Self::spec_guest_plan(data)).push(
            Self::spec_rest_shape(Self::spec_guest_plan(data), gpm_size),
        )
    }

    /// The devices that a loaded guest gets.  Of the interrupt controller
    /// only the base is mapped: its region is empty.
    pub open spec fn spec_guest_devices(machine: MachineMeta) -> Seq<(u64, u64)> {
        spec_opt_region(machine.test_finisher_address, 0) + spec_device_regions(
            machine.virtio@,
        ) + spec_opt_region(machine.uart, 0) + spec_opt_region(machine.clint, 0) + spec_opt_fixed(
            machine.plic,
            0,
        )
    }

    /// The shapes of the areas of a loaded guest: its memory, then its
    /// devices, each mapped to itself.
    pub open spec fn spec_guest_shapes(data: Seq<u8>, gpm_size: int, machine: MachineMeta) -> Seq<
        AreaShape,
    > {
        Self::spec_guest_memory_shapes(data, gpm_size) + spec_identity_shapes(
            Self::spec_guest_devices(machine),
            MAP_PERM_R | MAP_PERM_W | MAP_PERM_U,
        )
    }

    /// Why the image `data` cannot be loaded into a guest memory of
    /// `gpm_size` bytes on `machine`, if it cannot.
    pub open spec fn spec_guest_error(
        data: Seq<u8>,
        gpm_size: int,
        machine: MachineMeta,
        mem: PhysMemory,
    ) -> Option<MemorySetError> {
        if !spec_valid_image(data) {
            Some(MemorySetError::InvalidImage)
        } else if GUEST_START_PA + gpm_size > u64::MAX {
            Some(MemorySetError::RegionOverflow)
        } else if spec_scan_error(
            spec_program_headers(data),
            spec_program_headers(data).len() as int,
            data.len() as int,
            GUEST_START_PA + gpm_size,
            mem,
        ) is Some {
            spec_scan_error(
                spec_program_headers(data),
                spec_program_headers(data).len() as int,
                data.len() as int,
                GUEST_START_PA + gpm_size,
                mem,
            )
        } else if !(spec_opt_fits(machine.test_finisher_address, 0) && spec_devices_fit(
            machine.virtio@,
        ) && spec_opt_fits(machine.uart, 0) && spec_opt_fits(machine.clint, 0)) {
            Some(MemorySetError::RegionOverflow)
        } else {
            None
        }
    }

    /// The address space of a guest whose image `guest_data` is loaded here.
    ///
    /// Each loadable segment is copied into `mem`, the first to the start of
    /// guest memory and each to the first page behind the one before it, and
    /// gets a linear area with the permission of its flags.  One more linear
    /// area covers the rest of the `gpm_size` bytes of guest memory.  Then
    /// come the trampoline page and the devices.  Where the image cannot be
    /// loaded, `mem` stays as it was.
    pub fn new_guest(
        guest_data: &[u8],
        gpm_size: u64,
        guest_machine: &MachineMeta,
        root: PhysPageNum,
        code: PhysAddr,
        mem: &mut PhysMemory,
    ) -> (r: Result<Self, MemorySetError>)
        requires
            root.0 % 4 == 0,
        ensures
            final(mem).spec_base() == old(mem).spec_base(),
            r matches Err(e) ==> {
                &&& Self::spec_guest_error(guest_data@, gpm_size as int, *guest_machine, *old(mem))
                    == Some(e)
                &&& final(mem)@ == old(mem)@
            },
            r matches Ok(set) ==> {
                &&& Self::spec_guest_error(guest_data@, gpm_size as int, *guest_machine, *old(mem))
                    is None
                &&& set.wf()
                &&& set.all_linear()
                &&& set.page_table.root() == root
                &&& set.shapes() == Self::spec_guest_shapes(
                    guest_data@,
                    gpm_size as int,
                    *guest_machine,
                )
                &&& set.trampoline == if spec_shapes_hold(
                    Self::spec_guest_memory_shapes(guest_data@, gpm_size as int),
                    spec_trampoline_vpn(),
                ) {
                    None::<PhysPageNum>
                } else {
                    Some(PhysPageNum(page_floor(code.0 as int) as u64))
                }
                &&& final(mem)@ == spec_loaded(
                    old(mem)@,
                    old(mem).spec_base() as int,
                    guest_data@,
                    Self::spec_guest_plan(guest_data@),
                    Self::spec_guest_plan(guest_data@).len() as int,
                )
            },
    {
        let phs: Vec<ProgramHeader> = match read_program_headers(guest_data) {
            Some(phs) => phs,
            None => {
                return Err(MemorySetError::InvalidImage);
            },
        };
        if gpm_size > u64::MAX - GUEST_START_PA {
            return Err(MemorySetError::RegionOverflow);
        }
        let limit: u64 = GUEST_START_PA + gpm_size;
        let plan: Vec<LoadStep> = match plan_load(&phs, guest_data.len(), limit, mem) {
            Ok(plan) => plan,
            Err(e) => {
                return Err(e);
            },
        };
        let mut devices: Vec<(u64, u64)> = Vec::new();
        if !add_device(&mut devices, &guest_machine.test_finisher_address, 0) {
            return Err(MemorySetError::RegionOverflow);
        }
        let ghost d1 = devices@;
        if !add_devices(&mut devices, &guest_machine.virtio) {
            return Err(MemorySetError::RegionOverflow);
        }
        let ghost d2 = devices@;
        if !add_device(&mut devices, &guest_machine.uart, 0) {
            return Err(MemorySetError::RegionOverflow);
        }
        let ghost d3 = devices@;
        if !add_device(&mut devices, &guest_machine.clint, 0) {
            return Err(MemorySetError::RegionOverflow);
        }
        let ghost d4 = devices@;
        let fits: bool = add_fixed(&mut devices, &guest_machine.plic, 0);
        assert(fits);
        proof {
            let empty = Seq::<(u64, u64)>::empty();
            assert(d1 =~= spec_opt_region(guest_machine.test_finisher_address, 0));
            lemma_regions_ordered(empty, d1);
            assert(empty + d1 =~= d1);
            lemma_regions_ordered(d1, spec_device_regions(guest_machine.virtio@));
            lemma_regions_ordered(d2, spec_opt_region(guest_machine.uart, 0));
            lemma_regions_ordered(d3, spec_opt_region(guest_machine.clint, 0));
            lemma_regions_ordered(d4, spec_opt_fixed(guest_machine.plic, 0));
            assert(devices@ =~= Self::spec_guest_devices(*guest_machine));
        }
        let mut gpm = Self::new_guest_bare(root);
        let total: usize = guest_data.len();
        let ghost mem0 = mem@;
        let ghost base = mem.spec_base() as int;
        let mut k: usize = 0;
        while k < plan.len()
            invariant
                k <= plan@.len(),
                total == guest_data@.len(),
                plan@ == Self::spec_guest_plan(guest_data@),
                GUEST_START_PA <= spec_plan_end(plan@) <= limit,
                forall|j: int|
                    0 <= j < plan@.len() ==> {
                        &&& (#[trigger] plan@[j]).spec_error(
                            total as int,
                            limit as int,
                            *old(mem),
                        ) is None
                        &&& plan@[j].paddr % 4096 == 0
                        &&& GUEST_START_PA <= plan@[j].paddr
                    },
                mem.spec_base() == old(mem).spec_base() == base,
                mem@.len() == old(mem)@.len(),
                mem0 == old(mem)@,
                mem@ == spec_loaded(mem0, base, guest_data@, plan@, k as int),
                gpm.wf(),
                gpm.trampoline is None,
                gpm.page_table.root() == root,
                gpm.shapes() == spec_plan_shapes(plan@.subrange(0, k as int)),
            decreases plan@.len() - k,
        {
            let step: LoadStep = plan[k];
            assert(step.spec_error(total as int, limit as int, *old(mem)) is None);
            let copied: bool = mem.write(
                step.paddr,
                guest_data,
                step.offset as usize,
                step.file_size as usize,
            );
            assert(copied);
            let pages: u64 = page_count(step.mem_size);
            push_linear(
                &mut gpm.page_table,
                &mut gpm.areas,
                &gpm.trampoline,
                step.virtual_addr,
                step.virtual_addr + step.mem_size,
                step.paddr,
                step.paddr + pages * 4096,
                step.perm,
            );
            k = k + 1;
            assert(gpm.shapes() =~= spec_plan_shapes(plan@.subrange(0, k as int)));
        }
        assert(plan@.subrange(0, k as int) =~= plan@);
        let loaded: u64 = if plan.len() == 0 {
            GUEST_START_PA
        } else {
            let last: LoadStep = plan[plan.len() - 1];
            last.paddr + page_count(last.mem_size) * 4096
        };
        assert(loaded == spec_plan_end(plan@));
        assert(loaded % 4096 == 0) by {
            if plan@.len() > 0 {
                assert(plan@[plan@.len() - 1].paddr % 4096 == 0);
            }
        }
        push_linear(
            &mut gpm.page_table,
            &mut gpm.areas,
            &gpm.trampoline,
            loaded - GUEST_START_PA + GUEST_START_VA,
            GUEST_START_VA + gpm_size,
            loaded,
            limit,
            MAP_PERM_R | MAP_PERM_W | MAP_PERM_U | MAP_PERM_X,
        );
        proof {
            assert(gpm.shapes() =~= Self::spec_guest_memory_shapes(guest_data@, gpm_size as int));
            lemma_all_linear(gpm.areas@);
            lemma_mapped_iff_held(gpm.page_table@, gpm.areas@, spec_trampoline_vpn());
        }
        gpm.map_trampoline(code);
        push_regions(
            &mut gpm.page_table,
            &mut gpm.areas,
            &gpm.trampoline,
            &devices,
            MAP_PERM_R | MAP_PERM_W | MAP_PERM_U,
        );
        proof {
            assert(gpm.shapes() =~= Self::spec_guest_shapes(
                guest_data@,
                gpm_size as int,
                *guest_machine,
            ));
            lemma_all_linear(gpm.areas@);
        }
        Ok(gpm)
    }
}

/// The page in the middle of the region `[start, end)`.
pub open spec fn spec_middle_page(start: u64, end: u64) -> u64 {
    (((start + end) / 2) / 4096) as u64
}

/// Whether the sections of the hypervisor have no permission too many in
/// the table `pt`: the middle of the code and the middle of the constants
/// cannot be written, and the middle of the data cannot be executed.
pub open spec fn spec_remap_sound(pt: Map<u64, PageTableEntry>, layout: KernelLayout) -> bool {
    &&& pt[spec_middle_page(layout.stext, layout.etext)].flags & PTE_W == 0
    &&& pt[spec_middle_page(layout.srodata, layout.erodata)].flags & PTE_W == 0
    &&& pt[spec_middle_page(layout.sdata, layout.edata)].flags & PTE_X == 0
}

/// Checks that the sections of the hypervisor have no permission too many
/// in `kernel_space`.  `None` where one of the three pages that are looked at
/// is not mapped.
pub fn remap_test(kernel_space: &HostMemorySet, layout: &KernelLayout) -> (sound: Option<bool>)
    ensures
        sound == if kernel_space.page_table@.contains_key(
            spec_middle_page(layout.stext, layout.etext),
        ) && kernel_space.page_table@.contains_key(
            spec_middle_page(layout.srodata, layout.erodata),
        ) && kernel_space.page_table@.contains_key(spec_middle_page(layout.sdata, layout.edata)) {
            Some(spec_remap_sound(kernel_space.page_table@, *layout))
        } else {
            None::<bool>
        },
{
    let text = kernel_space.page_table.translate(middle_page(layout.stext, layout.etext));
    let rodata = kernel_space.page_table.translate(middle_page(layout.srodata, layout.erodata));
    let data = kernel_space.page_table.translate(middle_page(layout.sdata, layout.edata));
    match (text, rodata, data) {
        (Some(text), Some(rodata), Some(data)) => Some(
            !text.writable() && !rodata.writable() && !data.executable(),
        ),
        _ => None,
    }
}

/// The page in the middle of the region `[start, end)`.
fn middle_page(start: u64, end: u64) -> (vpn: VirtPageNum)
    ensures
        vpn.0 == spec_middle_page(start, end),
{
    let middle: u128 = (start as u128 + end as u128) / 2;
    VirtAddr(middle as u64).floor()
}

} // verus!

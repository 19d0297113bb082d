//! What holds of every well-formed memory set, and of a loaded guest.

use crate::address::{page_floor, PhysPageNum};
use crate::constants::GUEST_START_PA;
use crate::elf::{spec_program_headers, ProgramHeader, PT_LOAD};
use crate::guest::pmap::{spec_area_translate, spec_g_stage, spec_guest_word, spec_scan};
use crate::guest::pmap::{spec_pte_leaf, spec_pte_ppn, spec_pte_usable, spec_two_stage};
use crate::guest::pmap::{spec_two_stage_by, spec_vpn_index, spec_vs_walk};
use crate::machine::MachineMeta;
use crate::memory::PhysMemory;
use crate::mm::load::{spec_loaded, spec_plan, spec_plan_end, spec_plan_shapes};
use crate::mm::load::{spec_round_up, spec_scan_error, spec_step, LoadStep};
use crate::mm::memory_set::{spec_covered, spec_is_trampoline, spec_set_wf};
use crate::mm::memory_set::{GuestMemorySet};
use crate::mm::map_area::{MapArea};
use crate::mm::region::{spec_shape_holds, spec_shapes_hold};
use crate::page_table::{PageTableEntry, PTE_V};
use vstd::prelude::*;

verus! {

broadcast use vstd::std_specs::btree::group_btree_axioms;

/// In a well-formed memory set, a linear area covers as many physical pages
/// as virtual pages.  Each of its pages has a translation, and where no
/// earlier area holds the page and the page is not the recorded trampoline
/// page, the translation leads to the physical page at the same distance
/// from the start of the area, with the permission of the area and the valid
/// bit as its flags.
pub proof fn lemma_linear_area_lookup(
    pt: Map<u64, PageTableEntry>,
    areas: Seq<MapArea>,
    trampoline: Option<PhysPageNum>,
    i: int,
    vpn: u64,
)
    requires
        spec_set_wf(pt, areas, trampoline),
        0 <= i < areas.len(),
        areas[i].map_type is Linear,
        areas[i].vpn_range.contains(vpn),
    ensures
        areas[i].ppn_range is Some,
        areas[i].vpn_range.r.0 - areas[i].vpn_range.l.0 == areas[i].ppn_range.unwrap().r.0
            - areas[i].ppn_range.unwrap().l.0,
        pt.contains_key(vpn),
        !spec_covered(areas, i, vpn) && !spec_is_trampoline(trampoline, vpn) ==> {
            &&& pt[vpn].ppn.0 == areas[i].ppn_range.unwrap().l.0 + (vpn - areas[i].vpn_range.l.0)
            &&& pt[vpn].flags == areas[i].map_perm.bits | PTE_V
        },
{
    assert(areas[i].wf());
    assert(areas[i].entries().contains_key(vpn));
}

/// The pages `[l, r)` are `r - l` pages.
pub proof fn lemma_range_len(l: u64, r: u64)
    requires
        l <= r,
    ensures
        Set::new(|v: u64| l <= v < r).finite(),
        Set::new(|v: u64| l <= v < r).len() == r - l,
    decreases r - l,
{
    if l == r {
        assert(Set::new(|v: u64| l <= v < r) =~= Set::<u64>::empty());
    } else {
        let last = (r - 1) as u64;
        lemma_range_len(l, last);
        assert(Set::new(|v: u64| l <= v < r) =~= Set::new(|v: u64| l <= v < last).insert(last));
    }
}

/// In a well-formed memory set, a framed area holds exactly one frame for
/// each of its pages.  Each of its pages has a translation, and where no
/// earlier area holds the page and the page is not the recorded trampoline
/// page, the translation leads to the frame that the area holds for the
/// page, with the permission of the area and the valid bit as its flags.
pub proof fn lemma_framed_area_frames(
    pt: Map<u64, PageTableEntry>,
    areas: Seq<MapArea>,
    trampoline: Option<PhysPageNum>,
    i: int,
)
    requires
        spec_set_wf(pt, areas, trampoline),
        0 <= i < areas.len(),
        areas[i].map_type is Framed,
    ensures
        areas[i].data_frames@.dom().finite(),
        areas[i].data_frames@.len() == areas[i].vpn_range.r.0 - areas[i].vpn_range.l.0,
        forall|v: u64|
            areas[i].vpn_range.contains(v) ==> {
                &&& #[trigger] pt.contains_key(v)
                &&& areas[i].data_frames@.contains_key(v)
                &&& !spec_covered(areas, i, v) && !spec_is_trampoline(trampoline, v) ==> pt[v].ppn
                    == areas[i].data_frames@[v].ppn && pt[v].flags == areas[i].map_perm.bits
                    | PTE_V
            },
{
    let area = areas[i];
    assert(area.wf() && area.backed());
    lemma_range_len(area.vpn_range.l.0, area.vpn_range.r.0);
    assert(area.data_frames@.dom() =~= Set::new(
        |v: u64| area.vpn_range.l.0 <= v < area.vpn_range.r.0,
    ));
    assert forall|v: u64| area.vpn_range.contains(v) implies {
        &&& #[trigger] pt.contains_key(v)
        &&& area.data_frames@.contains_key(v)
        &&& !spec_covered(areas, i, v) && !spec_is_trampoline(trampoline, v) ==> pt[v].ppn
            == area.data_frames@[v].ppn && pt[v].flags == area.map_perm.bits | PTE_V
    } by {
        assert(area.data_frames@.contains_key(v));
        assert(area.entries().contains_key(v));
    }
}

/// Where the loadable segments among the first `n` headers can all be
/// loaded, each step of the plan is sound and has room, starts at a page
/// boundary at or above the start of guest memory, and starts where the step
/// before it ends.
pub proof fn lemma_plan_chain(
    phs: Seq<ProgramHeader>,
    n: int,
    data_len: int,
    limit: int,
    mem: PhysMemory,
)
    requires
        spec_scan_error(phs, n, data_len, limit, mem) is None,
        GUEST_START_PA <= limit <= u64::MAX,
    ensures
        GUEST_START_PA <= spec_plan_end(spec_plan(phs, n)) <= limit,
        spec_plan_end(spec_plan(phs, n)) % 4096 == 0,
        forall|j: int|
            0 <= j < spec_plan(phs, n).len() ==> {
                &&& (#[trigger] spec_plan(phs, n)[j]).spec_error(data_len, limit, mem) is None
                &&& spec_plan(phs, n)[j].paddr % 4096 == 0
                &&& GUEST_START_PA <= spec_plan(phs, n)[j].paddr
            },
        forall|a: int, b: int|
            0 <= a < b < spec_plan(phs, n).len() ==> (#[trigger] spec_plan(phs, n)[a]).spec_end()
                <= (#[trigger] spec_plan(phs, n)[b]).paddr,
    decreases n,
{
    if n > 0 {
        lemma_plan_chain(phs, n - 1, data_len, limit, mem);
        let before = spec_plan(phs, n - 1);
        let plan = spec_plan(phs, n);
        if phs[n - 1].type_ == PT_LOAD {
            let step = spec_step(phs[n - 1], spec_plan_end(before));
            assert(plan == before.push(step));
            assert(step.spec_error(data_len, limit, mem) is None);
            assert forall|a: int, b: int| 0 <= a < b < plan.len() implies (#[trigger] plan[a]).spec_end()
                <= (#[trigger] plan[b]).paddr by {
                if b < before.len() {
                    assert(plan[a] == before[a] && plan[b] == before[b]);
                } else {
                    assert(plan[a] == before[a]);
                    if a < before.len() - 1 {
                        assert(before[a].spec_end() <= before[before.len() - 1].paddr);
                    }
                }
            }
        }
    }
}

/// Loading never changes the length of memory.
pub proof fn lemma_loaded_len(mem: Seq<u8>, base: int, data: Seq<u8>, plan: Seq<LoadStep>, n: int)
    ensures
        spec_loaded(mem, base, data, plan, n).len() == mem.len(),
    decreases n,
{
    if n > 0 {
        lemma_loaded_len(mem, base, data, plan, n - 1);
    }
}

/// A byte that step `i` of a plan has written is still there after the first
/// `n` steps, for `n` above `i`, where each later step starts at or behind
/// the end of what step `i` wrote.
pub proof fn lemma_loaded_keeps(
    mem: Seq<u8>,
    base: int,
    data: Seq<u8>,
    plan: Seq<LoadStep>,
    i: int,
    n: int,
    k: int,
)
    requires
        0 <= i < n <= plan.len(),
        0 <= k < plan[i].file_size,
        plan[i].offset + plan[i].file_size <= data.len(),
        0 <= plan[i].paddr - base,
        plan[i].paddr - base + plan[i].file_size <= mem.len(),
        forall|b: int| i < b < plan.len() ==> plan[i].paddr + plan[i].file_size <= (
        #[trigger] plan[b]).paddr,
    ensures
        spec_loaded(mem, base, data, plan, n)[plan[i].paddr - base + k] == data[plan[i].offset
            + k],
    decreases n - i,
{
    lemma_loaded_len(mem, base, data, plan, n - 1);
    if n > i + 1 {
        lemma_loaded_keeps(mem, base, data, plan, i, n - 1, k);
        assert(plan[i].paddr + plan[i].file_size <= plan[n - 1].paddr);
    }
}

/// What was loaded can be read back.  After an image was loaded into a
/// guest, a byte of a segment that starts at a page boundary and has no more
/// bytes in the image than its pages hold is found, through the guest's page
/// table, at the address at which the segment put it: the table translates
/// the page of the address, and memory holds the byte of the image at the
/// translated address.  This is stated for pages that no earlier segment
/// holds and that are not the recorded trampoline page.
pub proof fn lemma_load_round_trip(
    data: Seq<u8>,
    gpm_size: u64,
    machine: MachineMeta,
    before: PhysMemory,
    set: GuestMemorySet,
    after: Seq<u8>,
    i: int,
    k: int,
)
    requires
        GuestMemorySet::spec_guest_error(data, gpm_size as int, machine, before) is None,
        set.wf(),
        set.shapes() == GuestMemorySet::spec_guest_shapes(data, gpm_size as int, machine),
        after == spec_loaded(
            before@,
            before.spec_base() as int,
            data,
            GuestMemorySet::spec_guest_plan(data),
            GuestMemorySet::spec_guest_plan(data).len() as int,
        ),
        0 <= i < GuestMemorySet::spec_guest_plan(data).len(),
        0 <= k < GuestMemorySet::spec_guest_plan(data)[i].file_size,
        GuestMemorySet::spec_guest_plan(data)[i].virtual_addr % 4096 == 0,
        GuestMemorySet::spec_guest_plan(data)[i].file_size <= spec_round_up(
            GuestMemorySet::spec_guest_plan(data)[i].mem_size as int,
        ),
        !spec_shapes_hold(
            spec_plan_shapes(GuestMemorySet::spec_guest_plan(data)).subrange(0, i),
            page_floor(GuestMemorySet::spec_guest_plan(data)[i].virtual_addr + k) as u64,
        ),
        !spec_is_trampoline(
            set.trampoline,
            page_floor(GuestMemorySet::spec_guest_plan(data)[i].virtual_addr + k) as u64,
        ),
    ensures
        ({
            let step = GuestMemorySet::spec_guest_plan(data)[i];
            let va = step.virtual_addr + k;
            let vpn = page_floor(va) as u64;
            &&& set.page_table@.contains_key(vpn)
            &&& 0 <= set.page_table@[vpn].ppn.0 * 4096 + va % 4096 - before.spec_base()
                < after.len()
            &&& after[set.page_table@[vpn].ppn.0 * 4096 + va % 4096 - before.spec_base()]
                == data[step.offset + k]
        }),
{
    let phs = spec_program_headers(data);
    let plan = GuestMemorySet::spec_guest_plan(data);
    let limit = GUEST_START_PA + gpm_size;
    let step = plan[i];
    let va = step.virtual_addr + k;
    let vpn = page_floor(va) as u64;
    let areas = set.areas@;
    lemma_plan_chain(phs, phs.len() as int, data.len() as int, limit, before);
    assert(step.spec_error(data.len() as int, limit, before) is None);
    let shapes = set.shapes();
    assert(shapes.len() == areas.len());
    assert(spec_plan_shapes(plan).len() == plan.len());
    assert(shapes[i] == spec_plan_shapes(plan)[i]);
    assert(shapes[i] == areas[i].shape());
    assert(areas[i].shape() == step.spec_shape());
    assert(areas[i].map_type is Linear);
    assert(areas[i].vpn_range.contains(vpn));
    assert(!spec_covered(areas, i, vpn)) by {
        if spec_covered(areas, i, vpn) {
            let j = choose|j: int|
                0 <= j < i && j < areas.len() && #[trigger] areas[j].entries().contains_key(vpn);
            assert(shapes[j] == spec_plan_shapes(plan)[j]);
            assert(shapes[j] == areas[j].shape());
            assert(areas[j].shape() == plan[j].spec_shape());
            assert(spec_plan_shapes(plan).subrange(0, i)[j] == plan[j].spec_shape());
            assert(spec_shape_holds(spec_plan_shapes(plan).subrange(0, i)[j], vpn));
        }
    }
    lemma_linear_area_lookup(set.page_table@, areas, set.trampoline, i, vpn);
    assert(set.page_table@[vpn].ppn.0 * 4096 + va % 4096 == step.paddr + k);
    assert forall|b: int| i < b < plan.len() implies plan[i].paddr + plan[i].file_size <= (
    #[trigger] plan[b]).paddr by {
        assert(plan[i].spec_end() <= plan[b].paddr);
    }
    lemma_loaded_len(before@, before.spec_base() as int, data, plan, plan.len() as int);
    lemma_loaded_keeps(before@, before.spec_base() as int, data, plan, i, plan.len() as int, k);
}

/// The second stage as the hypervisor walks it is the second stage as the
/// page table of the guest holds it.  In a well-formed guest memory set of
/// linear areas whose physical pages end inside the address space, scanning
/// the areas for a guest physical address leads to the page that the table
/// gives for the page of the address, at the same offset, and leads nowhere
/// where the table has no translation.  This is stated for every address but
/// those in the recorded trampoline page.
pub proof fn lemma_g_stage_is_table(set: GuestMemorySet, gpa: u64)
    requires
        set.wf(),
        set.all_linear(),
        forall|i: int|
            0 <= i < set.areas@.len() ==> (#[trigger] set.areas@[i]).ppn_range.unwrap().r.0
                <= 0x10_0000_0000_0000,
        !spec_is_trampoline(set.trampoline, (gpa / 4096) as u64),
    ensures
        spec_g_stage(set.areas@, 0, gpa) == if set.page_table@.contains_key((gpa / 4096) as u64) {
            Some((set.page_table@[(gpa / 4096) as u64].ppn.0 * 4096 + gpa % 4096) as u64)
        } else {
            None::<u64>
        },
{
    lemma_g_stage_from(set, 0, gpa);
}

/// The scan of the areas from index `from` on agrees with the page table,
/// where no area before `from` holds the page of the address.
proof fn lemma_g_stage_from(set: GuestMemorySet, from: int, gpa: u64)
    requires
        set.wf(),
        set.all_linear(),
        forall|i: int|
            0 <= i < set.areas@.len() ==> (#[trigger] set.areas@[i]).ppn_range.unwrap().r.0
                <= 0x10_0000_0000_0000,
        !spec_is_trampoline(set.trampoline, (gpa / 4096) as u64),
        0 <= from <= set.areas@.len(),
        !spec_covered(set.areas@, from, (gpa / 4096) as u64),
    ensures
        spec_g_stage(set.areas@, from, gpa) == if set.page_table@.contains_key(
            (gpa / 4096) as u64,
        ) {
            Some((set.page_table@[(gpa / 4096) as u64].ppn.0 * 4096 + gpa % 4096) as u64)
        } else {
            None::<u64>
        },
    decreases set.areas@.len() - from,
{
    let areas = set.areas@;
    let vpn = (gpa / 4096) as u64;
    if from == areas.len() {
    } else {
        let area = areas[from];
        assert(area.wf());
        assert(area.map_type is Linear);
        assert(area.ppn_range.unwrap().r.0 <= 0x10_0000_0000_0000);
        if area.vpn_range.contains(vpn) {
            assert(area.entries().contains_key(vpn));
            lemma_linear_area_lookup(set.page_table@, areas, set.trampoline, from, vpn);
            assert(spec_area_translate(area, gpa) is Some);
        } else {
            assert(spec_area_translate(area, gpa) is None);
            assert(!spec_covered(areas, from + 1, vpn)) by {
                if spec_covered(areas, from + 1, vpn) {
                    let j = choose|j: int|
                        0 <= j < from + 1 && j < areas.len() && #[trigger] areas[j].entries().contains_key(
                            vpn,
                        );
                    if j < from {
                        assert(spec_covered(areas, from, vpn));
                    }
                }
            }
            lemma_g_stage_from(set, from + 1, gpa);
        }
    }
}

/// The second stage as the page table `pt` holds it: the page that the
/// table gives for the page of the address, at the same offset.
pub open spec fn spec_table_stage(pt: Map<u64, PageTableEntry>) -> spec_fn(u64) -> Option<u64> {
    |gpa: u64|
        if pt.contains_key((gpa / 4096) as u64) && pt[(gpa / 4096) as u64].ppn.0 * 4096 + gpa
            % 4096 <= u64::MAX {
            Some((pt[(gpa / 4096) as u64].ppn.0 * 4096 + gpa % 4096) as u64)
        } else {
            None::<u64>
        }
}

/// Two second stages that agree below the end of what a page-table entry
/// can address give the same first-stage walk.
proof fn lemma_walk_agrees(
    mem: PhysMemory,
    f: spec_fn(u64) -> Option<u64>,
    g: spec_fn(u64) -> Option<u64>,
    table: u64,
    va: u64,
    level: int,
)
    requires
        forall|gpa: u64| gpa < 0x100_0000_0000_1000 ==> #[trigger] f(gpa) == g(gpa),
    ensures
        spec_vs_walk(mem, f, table, va, level) == spec_vs_walk(mem, g, table, va, level),
        spec_vs_walk(mem, f, table, va, level) matches Some(gpa) ==> gpa < 0x100_0000_0000_0000,
    decreases level,
{
    if !(level < 0 || level > 2 || table % 4096 != 0 || table >= 0x100_0000_0000_0000) {
        let at = (table + spec_vpn_index(va, level) * 8) as u64;
        assert(f(at) == g(at));
        assert(spec_guest_word(mem, f, at) == spec_guest_word(mem, g, at));
        match spec_guest_word(mem, f, at) {
            None => {},
            Some(pte) => {
                if spec_pte_usable(pte) && !spec_pte_leaf(
                    pte,
                ) && level != 0 {
                    lemma_walk_agrees(
                        mem,
                        f,
                        g,
                        (spec_pte_ppn(pte) * 4096) as u64,
                        va,
                        level - 1,
                    );
                }
            },
        }
    }
}

/// The hypervisor finds what the guest finds.  In a well-formed guest memory
/// set of linear areas whose physical pages end inside the address space,
/// the two-stage translation that scans the areas gives the address that the
/// same walk gives with the page table of the guest as its second stage.
/// This is stated for every guest virtual address but those in the recorded
/// trampoline page.
pub proof fn lemma_two_stage_is_table_walk(
    set: GuestMemorySet,
    mem: PhysMemory,
    vsatp: u64,
    va: u64,
)
    requires
        set.wf(),
        set.all_linear(),
        forall|i: int|
            0 <= i < set.areas@.len() ==> (#[trigger] set.areas@[i]).ppn_range.unwrap().r.0
                <= 0x10_0000_0000_0000,
        !spec_is_trampoline(set.trampoline, (va / 4096) as u64),
    ensures
        spec_two_stage(mem, set.areas@, vsatp, va) == spec_two_stage_by(
            mem,
            spec_table_stage(set.page_table@),
            vsatp,
            va,
        ),
{
    let f = spec_scan(set.areas@);
    let g = spec_table_stage(set.page_table@);
    assert forall|gpa: u64| gpa < 0x100_0000_0000_1000 implies #[trigger] f(gpa) == g(gpa) by {
        lemma_scan_is_table(set, gpa);
    }
    lemma_scan_is_table(set, va);
    lemma_walk_agrees(mem, f, g, ((vsatp % 0x1000_0000_0000) * 4096) as u64, va, 2);
}

/// At an address outside the recorded trampoline page, the scan of the
/// areas and the page table give the same second stage.
proof fn lemma_scan_is_table(set: GuestMemorySet, gpa: u64)
    requires
        set.wf(),
        set.all_linear(),
        forall|i: int|
            0 <= i < set.areas@.len() ==> (#[trigger] set.areas@[i]).ppn_range.unwrap().r.0
                <= 0x10_0000_0000_0000,
        !spec_is_trampoline(set.trampoline, (gpa / 4096) as u64),
    ensures
        spec_scan(set.areas@)(gpa) == spec_table_stage(set.page_table@)(gpa),
{
    lemma_g_stage_is_table(set, gpa);
    let vpn = (gpa / 4096) as u64;
    if set.page_table@.contains_key(vpn) {
        lemma_table_entry_addressable(set, vpn);
    }
}

/// In a well-formed guest memory set of linear areas whose physical pages
/// end inside the address space, every page that the table gives lies
/// inside the address space, but for the recorded trampoline page.
proof fn lemma_table_entry_addressable(set: GuestMemorySet, vpn: u64)
    requires
        set.wf(),
        set.all_linear(),
        forall|i: int|
            0 <= i < set.areas@.len() ==> (#[trigger] set.areas@[i]).ppn_range.unwrap().r.0
                <= 0x10_0000_0000_0000,
        !spec_is_trampoline(set.trampoline, vpn),
        set.page_table@.contains_key(vpn),
    ensures
        set.page_table@[vpn].ppn.0 < 0x10_0000_0000_0000,
{
    let areas = set.areas@;
    lemma_first_holder(areas, areas.len() as int, vpn);
    let i = choose|i: int|
        0 <= i < areas.len() && areas[i].entries().contains_key(vpn) && !spec_covered(
            areas,
            i,
            vpn,
        );
    assert(areas[i].wf());
    assert(areas[i].map_type is Linear);
    lemma_linear_area_lookup(set.page_table@, areas, set.trampoline, i, vpn);
}

/// A page that one of the first `n` areas holds has a first area that
/// holds it.
proof fn lemma_first_holder(areas: Seq<MapArea>, n: int, vpn: u64)
    requires
        spec_covered(areas, n, vpn),
    ensures
        exists|i: int|
            0 <= i < areas.len() && i < n && (#[trigger] areas[i]).entries().contains_key(vpn)
                && !spec_covered(areas, i, vpn),
    decreases n,
{
    let j = choose|j: int|
        0 <= j < n && j < areas.len() && #[trigger] areas[j].entries().contains_key(vpn);
    if spec_covered(areas, j, vpn) {
        lemma_first_holder(areas, j, vpn);
    }
}

} // verus!

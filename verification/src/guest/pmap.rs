//! Translation of guest addresses in two stages, and the decoding of the
//! instruction that a guest was executing when it trapped.
//!
//! The first stage is the guest's own: its page table lies in guest memory
//! and leads from guest virtual to guest physical addresses.  The second
//! stage is the hypervisor's: the areas of the guest's memory set lead from
//! guest physical to host physical addresses.  The hypervisor maps guest
//! memory to itself, so a host physical address is a host virtual address
//! too.

use crate::memory::{lemma_le_bound, pow256, spec_le, PhysMemory};
use crate::mm::memory_set::{GuestMemorySet};
use crate::mm::map_area::{MapArea, MapType};
use vstd::prelude::*;

verus! {

/// Mode field of a translation register: no translation.
pub const SATP_MODE_BARE: u64 = 0;

/// Mode field of a translation register: three levels, 39-bit addresses.
pub const SATP_MODE_SV39: u64 = 8;

/// Number of bits of a physical page number in an entry or a root token.
pub const PPN_MODULUS: u64 = 0x1000_0000_0000;

/// The host physical address to which `area` leads from the guest
/// physical address `gpa`: the address at the same distance from the start
/// of the physical pages of the area.  `None` where the area is not linear,
/// does not hold the page of the address, or leads out of the address space.
pub open spec fn spec_area_translate(area: MapArea, gpa: u64) -> Option<u64> {
    if area.map_type is Linear && area.ppn_range is Some && area.vpn_range.contains(
        (gpa / 4096) as u64,
    ) && gpa + (area.ppn_range.unwrap().l.0 - area.vpn_range.l.0) * 4096 <= u64::MAX {
        Some((gpa + (area.ppn_range.unwrap().l.0 - area.vpn_range.l.0) * 4096) as u64)
    } else {
        None
    }
}

/// The second stage: the host physical address to which the first of the
/// areas from index `from` on that leads anywhere leads from `gpa`.
pub open spec fn spec_g_stage(areas: Seq<MapArea>, from: int, gpa: u64) -> Option<u64>
    decreases areas.len() - from,
{
    if from < 0 || from >= areas.len() {
        None
    } else if spec_area_translate(areas[from], gpa) is Some {
        spec_area_translate(areas[from], gpa)
    } else {
        spec_g_stage(areas, from + 1, gpa)
    }
}

/// The second stage of the areas `areas`, as a function of the guest
/// physical address.
pub open spec fn spec_scan(areas: Seq<MapArea>) -> spec_fn(u64) -> Option<u64> {
    |gpa: u64| spec_g_stage(areas, 0, gpa)
}

/// The 64-bit word at the guest physical address `gpa`, read through the
/// second stage `second`.
pub open spec fn spec_guest_word(
    mem: PhysMemory,
    second: spec_fn(u64) -> Option<u64>,
    gpa: u64,
) -> Option<u64> {
    match second(gpa) {
        Some(hpa) => if mem.holds(hpa as int, 8) {
            Some(spec_le(mem@, hpa - mem.spec_base(), 8) as u64)
        } else {
            None
        },
        None => None,
    }
}

/// Index into the table of level `level` for the address `va`.
pub open spec fn spec_vpn_index(va: u64, level: int) -> int {
    if level == 2 {
        ((va / 0x4000_0000) % 512) as int
    } else if level == 1 {
        ((va / 0x20_0000) % 512) as int
    } else {
        ((va / 0x1000) % 512) as int
    }
}

/// Bytes that a leaf of level `level` covers.
pub open spec fn spec_level_span(level: int) -> int {
    if level == 2 {
        0x4000_0000
    } else if level == 1 {
        0x20_0000
    } else {
        0x1000
    }
}

/// Whether the entry `pte` is valid and not of the reserved form that is
/// writable without being readable.
pub open spec fn spec_pte_usable(pte: u64) -> bool {
    pte % 2 == 1 && !((pte / 2) % 2 == 0 && (pte / 4) % 2 == 1)
}

/// Whether the entry `pte` is a leaf: readable or executable.
pub open spec fn spec_pte_leaf(pte: u64) -> bool {
    (pte / 2) % 2 == 1 || (pte / 8) % 2 == 1
}

/// The physical page number of the entry `pte`.
pub open spec fn spec_pte_ppn(pte: u64) -> int {
    ((pte / 1024) % 0x1000_0000_0000) as int
}

/// The first stage from the table at guest physical address `table`, which
/// is of level `level`, for the guest virtual address `va`: the entry for
/// the address is read through the second stage `second`; an entry that cannot be
/// read, or is not usable, ends the walk with nothing; a leaf gives the
/// address, if it starts at a multiple of what it covers; any other entry
/// leads to the table of the next level, if there is one.
pub open spec fn spec_vs_walk(
    mem: PhysMemory,
    second: spec_fn(u64) -> Option<u64>,
    table: u64,
    va: u64,
    level: int,
) -> Option<u64>
    decreases level,
{
    if level < 0 || level > 2 || table % 4096 != 0 || table >= 0x100_0000_0000_0000 {
        None
    } else {
        match spec_guest_word(mem, second, (table + spec_vpn_index(va, level) * 8) as u64) {
            None => None,
            Some(pte) => if !spec_pte_usable(pte) {
                None
            } else if spec_pte_leaf(pte) {
                if (spec_pte_ppn(pte) * 4096) % spec_level_span(level) == 0 {
                    Some((spec_pte_ppn(pte) * 4096 + va % (spec_level_span(level) as u64)) as u64)
                } else {
                    None
                }
            } else if level == 0 {
                None
            } else {
                spec_vs_walk(mem, second, (spec_pte_ppn(pte) * 4096) as u64, va, level - 1)
            },
        }
    }
}

/// The first stage under the translation register `vsatp`: the address
/// itself where translation is off, the walk from the root where the mode is
/// that of three levels, nothing under any other mode.
pub open spec fn spec_vs_stage(
    mem: PhysMemory,
    second: spec_fn(u64) -> Option<u64>,
    vsatp: u64,
    va: u64,
) -> Option<u64> {
    if vsatp / 0x1000_0000_0000_0000 == SATP_MODE_BARE {
        Some(va)
    } else if vsatp / 0x1000_0000_0000_0000 == SATP_MODE_SV39 {
        spec_vs_walk(mem, second, ((vsatp % 0x1000_0000_0000) * 4096) as u64, va, 2)
    } else {
        None
    }
}

/// Both stages, with `second` as the second: where the guest finds the
/// byte that it reads at `va`.
pub open spec fn spec_two_stage_by(
    mem: PhysMemory,
    second: spec_fn(u64) -> Option<u64>,
    vsatp: u64,
    va: u64,
) -> Option<u64> {
    match spec_vs_stage(mem, second, vsatp, va) {
        Some(gpa) => second(gpa),
        None => None,
    }
}

/// Both stages, with the areas `areas` as the second.
pub open spec fn spec_two_stage(mem: PhysMemory, areas: Seq<MapArea>, vsatp: u64, va: u64) -> Option<
    u64,
> {
    spec_two_stage_by(mem, spec_scan(areas), vsatp, va)
}

/// The second stage: the host physical address of the guest physical address
/// `gpa`, by the first area of `gpm` that leads anywhere from it.
pub fn guest_to_host(gpm: &GuestMemorySet, gpa: u64) -> (hpa: Option<u64>)
    ensures
        hpa == spec_g_stage(gpm.areas@, 0, gpa),
{
    let vpn: u64 = gpa / 4096;
    let mut i: usize = 0;
    while i < gpm.areas.len()
        invariant
            i <= gpm.areas@.len(),
            vpn == gpa / 4096,
            spec_g_stage(gpm.areas@, 0, gpa) == spec_g_stage(gpm.areas@, i as int, gpa),
        decreases gpm.areas@.len() - i,
    {
        let area: &MapArea = &gpm.areas[i];
        match (area.map_type, area.ppn_range) {
            (MapType::Linear, Some(p)) => {
                if area.vpn_range.l.0 <= vpn && vpn < area.vpn_range.r.0 {
                    let pages: u64 = vpn - area.vpn_range.l.0;
                    if p.l.0 <= u64::MAX / 4096 - pages {
                        let hpa: u64 = (p.l.0 + pages) * 4096 + gpa % 4096;
                        assert(spec_area_translate(gpm.areas@[i as int], gpa) == Some(hpa));
                        return Some(hpa);
                    }
                }
            },
            _ => {},
        }
        assert(spec_area_translate(gpm.areas@[i as int], gpa) is None);
        i = i + 1;
    }
    None
}

/// The 64-bit word at the guest physical address `gpa`.
fn guest_word(gpm: &GuestMemorySet, mem: &PhysMemory, gpa: u64) -> (word: Option<u64>)
    ensures
        word == spec_guest_word(*mem, spec_scan(gpm.areas@), gpa),
{
    match guest_to_host(gpm, gpa) {
        Some(hpa) => mem.read_le(hpa, 8),
        None => None,
    }
}

/// Bytes that a leaf of level `level` covers.
fn level_span(level: u8) -> (span: u64)
    requires
        level <= 2,
    ensures
        span == spec_level_span(level as int),
{
    if level == 2 {
        0x4000_0000
    } else if level == 1 {
        0x20_0000
    } else {
        0x1000
    }
}

/// The host address at which the guest `guest_id` finds what it reads at its
/// virtual address `guest_va`, under its translation register `vsatp_bits`
/// and its memory set `gpm`, with the guest's page table read from `mem`.
/// `None` where either stage fails.
pub fn two_stage_translation(
    guest_id: usize,
    guest_va: u64,
    vsatp_bits: u64,
    gpm: &GuestMemorySet,
    mem: &PhysMemory,
) -> (host_va: Option<u64>)
    ensures
        host_va == spec_two_stage(*mem, gpm.areas@, vsatp_bits, guest_va),
{
    let mode: u64 = vsatp_bits / 0x1000_0000_0000_0000;
    if mode == SATP_MODE_BARE {
        return guest_to_host(gpm, guest_va);
    }
    if mode != SATP_MODE_SV39 {
        return None;
    }
    let mut table: u64 = (vsatp_bits % PPN_MODULUS) * 4096;
    let mut level: u8 = 2;
    let ghost root = table;
    loop
        invariant
            level <= 2,
            table % 4096 == 0,
            table < 0x100_0000_0000_0000,
            spec_vs_walk(*mem, spec_scan(gpm.areas@), root, guest_va, 2) == spec_vs_walk(
                *mem,
                spec_scan(gpm.areas@),
                table,
                guest_va,
                level as int,
            ),
            spec_vs_stage(*mem, spec_scan(gpm.areas@), vsatp_bits, guest_va) == spec_vs_walk(
                *mem,
                spec_scan(gpm.areas@),
                root,
                guest_va,
                2,
            ),
        decreases level,
    {
        let span: u64 = level_span(level);
        let index: u64 = (guest_va / span) % 512;
        let pte: u64 = match guest_word(gpm, mem, table + index * 8) {
            Some(pte) => pte,
            None => {
                return None;
            },
        };
        let usable: bool = pte % 2 == 1 && !((pte / 2) % 2 == 0 && (pte / 4) % 2 == 1);
        if !usable {
            return None;
        }
        let next: u64 = ((pte / 1024) % PPN_MODULUS) * 4096;
        if (pte / 2) % 2 == 1 || (pte / 8) % 2 == 1 {
            if next % span != 0 {
                return None;
            }
            return guest_to_host(gpm, next + guest_va % span);
        }
        if level == 0 {
            return None;
        }
        table = next;
        level = level - 1;
    }
}

/// A load or store that the hypervisor emulates: which register takes or
/// gives the word.
#[derive(Copy, Clone, PartialEq, Eq, Debug, Structural)]
pub enum Instruction {
    /// Load a 32-bit word into register `rd`.
    Lw { rd: usize },
    /// Store the low 32 bits of register `rs2`.
    Sw { rs2: usize },
}

/// Length in bytes of the instruction whose first 32 bits are `raw`: two
/// where the lowest two bits are not both set, else four.
pub open spec fn spec_inst_len(raw: u32) -> u64 {
    if raw % 4 == 3 {
        4
    } else {
        2
    }
}

/// The load or store that `raw` encodes, if it is one that the hypervisor
/// emulates: a word load or store, in the full or in the compressed form.
pub open spec fn spec_decode(raw: u32) -> Option<Instruction> {
    if raw % 4 == 3 {
        if raw % 128 == 0x03 && (raw / 0x1000) % 8 == 2 {
            Some(Instruction::Lw { rd: ((raw / 128) % 32) as usize })
        } else if raw % 128 == 0x23 && (raw / 0x1000) % 8 == 2 {
            Some(Instruction::Sw { rs2: ((raw / 0x10_0000) % 32) as usize })
        } else {
            None
        }
    } else if raw % 4 == 0 && (raw / 0x2000) % 8 == 2 {
        Some(Instruction::Lw { rd: (8 + (raw / 4) % 8) as usize })
    } else if raw % 4 == 0 && (raw / 0x2000) % 8 == 6 {
        Some(Instruction::Sw { rs2: (8 + (raw / 4) % 8) as usize })
    } else {
        None
    }
}

/// Length of the instruction that starts with `raw`, and the load or store
/// that it encodes, if any.
pub fn decode_inst(raw: u32) -> (r: (u64, Option<Instruction>))
    ensures
        r.0 == spec_inst_len(raw),
        r.1 == spec_decode(raw),
        r.1 matches Some(Instruction::Lw { rd }) ==> rd < 32,
        r.1 matches Some(Instruction::Sw { rs2 }) ==> rs2 < 32,
{
    if raw % 4 == 3 {
        if raw % 128 == 0x03 && (raw / 0x1000) % 8 == 2 {
            (4, Some(Instruction::Lw { rd: ((raw / 128) % 32) as usize }))
        } else if raw % 128 == 0x23 && (raw / 0x1000) % 8 == 2 {
            (4, Some(Instruction::Sw { rs2: ((raw / 0x10_0000) % 32) as usize }))
        } else {
            (4, None)
        }
    } else if raw % 4 == 0 && (raw / 0x2000) % 8 == 2 {
        (2, Some(Instruction::Lw { rd: (8 + (raw / 4) % 8) as usize }))
    } else if raw % 4 == 0 && (raw / 0x2000) % 8 == 6 {
        (2, Some(Instruction::Sw { rs2: (8 + (raw / 4) % 8) as usize }))
    } else {
        (2, None)
    }
}

/// The first 32 bits of the instruction at host address `addr`: its first
/// half-word, and its second where the first says that the instruction has
/// one.  `None` where `mem` does not hold the instruction.
pub open spec fn spec_fetch(mem: PhysMemory, addr: u64) -> Option<u32> {
    if !mem.holds(addr as int, 2) {
        None
    } else if spec_le(mem@, addr - mem.spec_base(), 2) % 4 != 3 {
        Some(spec_le(mem@, addr - mem.spec_base(), 2) as u32)
    } else if !mem.holds(addr as int, 4) {
        None
    } else {
        Some(
            (spec_le(mem@, addr - mem.spec_base(), 2) + 0x1_0000 * spec_le(
                mem@,
                addr + 2 - mem.spec_base(),
                2,
            )) as u32,
        )
    }
}

/// Reads and decodes the instruction at host address `addr`: its length and
/// the load or store that it encodes.  `None` where `mem` does not hold the
/// instruction.
pub fn decode_inst_at_addr(mem: &PhysMemory, addr: u64) -> (r: Option<(u64, Option<Instruction>)>)
    ensures
        r == match spec_fetch(*mem, addr) {
            Some(raw) => Some((spec_inst_len(raw), spec_decode(raw))),
            None => None::<(u64, Option<Instruction>)>,
        },
        r matches Some((_, Some(Instruction::Lw { rd }))) ==> rd < 32,
        r matches Some((_, Some(Instruction::Sw { rs2 }))) ==> rs2 < 32,
{
    let low: u64 = match mem.read_le(addr, 2) {
        Some(low) => low,
        None => {
            return None;
        },
    };
    proof {
        lemma_le_bound(mem@, addr - mem.spec_base(), 2);
        reveal_with_fuel(pow256, 3);
    }
    if low % 4 != 3 {
        return Some(decode_inst(low as u32));
    }
    if !mem.contains(addr, 4) {
        return None;
    }
    proof {
        use_type_invariant(mem);
    }
    let high: u64 = match mem.read_le(addr + 2, 2) {
        Some(high) => high,
        None => {
            return None;
        },
    };
    proof {
        lemma_le_bound(mem@, addr + 2 - mem.spec_base(), 2);
    }
    Some(decode_inst((low + 0x1_0000 * high) as u32))
}

} // verus!

//! The plan by which the segments of a guest image are loaded.

use crate::address::{page_ceil, page_floor, VirtAddr};
use crate::constants::GUEST_START_PA;
use crate::elf::{ProgramHeader, PF_R, PF_W, PF_X, PT_LOAD};
use crate::memory::{spec_write, PhysMemory};
use crate::mm::map_area::{spec_linear_shape, spec_page_count, AreaShape};
use crate::mm::map_area::{MAP_PERM_R, MAP_PERM_U, MAP_PERM_W, MAP_PERM_X};
use crate::mm::region::MemorySetError;
use vstd::prelude::*;
use xmas_elf::program::Flags;

verus! {

/// One step of loading a guest image: the segment that is copied and where
/// it goes.
#[derive(Copy, Clone, PartialEq, Eq, Debug, Structural)]
pub struct LoadStep {
    /// Guest address at which the segment starts.
    pub virtual_addr: u64,
    /// Bytes that the segment takes in the guest.
    pub mem_size: u64,
    /// Offset in the image of the bytes of the segment.
    pub offset: u64,
    /// Number of bytes of the segment in the image.
    pub file_size: u64,
    /// Host physical address to which the bytes are copied.
    pub paddr: u64,
    /// Permission of the pages of the segment.
    pub perm: u8,
}

/// The permission of a segment with the flags `flags`: always `U`, and `R`,
/// `W` and `X` as the flags say.
pub open spec fn spec_segment_perm(flags: u32) -> u8 {
    let r = if flags & PF_R == PF_R {
        MAP_PERM_R
    } else {
        0u8
    };
    let w = if flags & PF_W == PF_W {
        MAP_PERM_W
    } else {
        0u8
    };
    let x = if flags & PF_X == PF_X {
        MAP_PERM_X
    } else {
        0u8
    };
    ((MAP_PERM_U | r) | w) | x
}

/// Whether a segment with the flags `flags` may be read.
///
/// Calls `xmas_elf::program::Flags::is_read`.  The contract claims of it
/// that it tests the bit of value four.
#[verifier::external_body]
fn flags_is_read(flags: u32) -> (b: bool)
    ensures
        b == (flags & PF_R == PF_R),
{
    Flags(flags).is_read()
}

/// Whether a segment with the flags `flags` may be written.
///
/// Calls `xmas_elf::program::Flags::is_write`.  The contract claims of it
/// that it tests the bit of value two.
#[verifier::external_body]
fn flags_is_write(flags: u32) -> (b: bool)
    ensures
        b == (flags & PF_W == PF_W),
{
    Flags(flags).is_write()
}

/// Whether a segment with the flags `flags` may be executed.
///
/// Calls `xmas_elf::program::Flags::is_execute`.  The contract claims of it
/// that it tests the bit of value one.
#[verifier::external_body]
fn flags_is_execute(flags: u32) -> (b: bool)
    ensures
        b == (flags & PF_X == PF_X),
{
    Flags(flags).is_execute()
}

/// The permission of a segment with the flags `flags`.
pub fn segment_perm(flags: u32) -> (perm: u8)
    ensures
        perm == spec_segment_perm(flags),
{
    let r: u8 = if flags_is_read(flags) {
        MAP_PERM_R
    } else {
        0u8
    };
    let w: u8 = if flags_is_write(flags) {
        MAP_PERM_W
    } else {
        0u8
    };
    let x: u8 = if flags_is_execute(flags) {
        MAP_PERM_X
    } else {
        0u8
    };
    ((MAP_PERM_U | r) | w) | x
}

/// Bytes of the pages that `len` bytes take.
pub open spec fn spec_round_up(len: int) -> int {
    spec_page_count(len) * 4096
}

impl LoadStep {
    /// First host physical address past the pages of the segment.
    pub open spec fn spec_end(&self) -> int {
        self.paddr + spec_round_up(self.mem_size as int)
    }

    /// The shape of the linear area of the segment.
    pub open spec fn spec_shape(&self) -> AreaShape {
        spec_linear_shape(
            self.virtual_addr as int,
            self.virtual_addr + self.mem_size,
            self.paddr as int,
            self.spec_end(),
            self.perm,
        )
    }

    /// Whether the bytes of the segment lie in an image of `data_len` bytes,
    /// the segment ends inside the address space, and it touches as many
    /// pages as its memory size takes.
    pub open spec fn spec_sound(&self, data_len: int) -> bool {
        &&& self.offset + self.file_size <= data_len
        &&& self.virtual_addr + self.mem_size <= u64::MAX
        &&& page_ceil(self.virtual_addr + self.mem_size) - page_floor(self.virtual_addr as int)
            == spec_page_count(self.mem_size as int)
    }

    /// Whether the pages of the segment end at or below `limit`, and `mem`
    /// holds the place to which its bytes are copied.
    pub open spec fn spec_has_room(&self, limit: int, mem: PhysMemory) -> bool {
        &&& self.spec_end() <= limit
        &&& mem.holds(self.paddr as int, self.file_size as int)
    }

    /// Why the step cannot be taken, if it cannot.
    pub open spec fn spec_error(&self, data_len: int, limit: int, mem: PhysMemory) -> Option<
        MemorySetError,
    > {
        if !self.spec_sound(data_len) {
            Some(MemorySetError::BadSegment)
        } else if !self.spec_has_room(limit, mem) {
            Some(MemorySetError::TooLarge)
        } else {
            None
        }
    }
}

/// The step that loads the segment of `ph` to `paddr`.
pub open spec fn spec_step(ph: ProgramHeader, paddr: int) -> LoadStep {
    LoadStep {
        virtual_addr: ph.virtual_addr,
        mem_size: ph.mem_size,
        offset: ph.offset,
        file_size: ph.file_size,
        paddr: paddr as u64,
        perm: spec_segment_perm(ph.flags),
    }
}

/// First host physical address behind the segments of `plan`.
pub open spec fn spec_plan_end(plan: Seq<LoadStep>) -> int {
    if plan.len() == 0 {
        GUEST_START_PA as int
    } else {
        plan.last().spec_end()
    }
}

/// The steps that load the loadable segments among the first `n` program
/// headers `phs`: each segment goes to the first page behind the one before
/// it, the first to the start of guest memory.
pub open spec fn spec_plan(phs: Seq<ProgramHeader>, n: int) -> Seq<LoadStep>
    decreases n,
{
    if n <= 0 {
        Seq::<LoadStep>::empty()
    } else {
        let before = spec_plan(phs, n - 1);
        if phs[n - 1].type_ == PT_LOAD {
            before.push(spec_step(phs[n - 1], spec_plan_end(before)))
        } else {
            before
        }
    }
}

/// The first reason, in the order of the headers, for which a loadable
/// segment among the first `n` program headers cannot be loaded.
pub open spec fn spec_scan_error(
    phs: Seq<ProgramHeader>,
    n: int,
    data_len: int,
    limit: int,
    mem: PhysMemory,
) -> Option<MemorySetError>
    decreases n,
{
    if n <= 0 {
        None
    } else {
        match spec_scan_error(phs, n - 1, data_len, limit, mem) {
            Some(e) => Some(e),
            None => if phs[n - 1].type_ == PT_LOAD {
                spec_step(phs[n - 1], spec_plan_end(spec_plan(phs, n - 1))).spec_error(
                    data_len,
                    limit,
                    mem,
                )
            } else {
                None
            },
        }
    }
}

/// An error among the first `m` headers is the error among the first `n`,
/// for `n` at least `m`.
pub proof fn lemma_scan_error_stays(
    phs: Seq<ProgramHeader>,
    m: int,
    n: int,
    data_len: int,
    limit: int,
    mem: PhysMemory,
)
    requires
        0 <= m <= n,
        spec_scan_error(phs, m, data_len, limit, mem) is Some,
    ensures
        spec_scan_error(phs, n, data_len, limit, mem) == spec_scan_error(
            phs,
            m,
            data_len,
            limit,
            mem,
        ),
    decreases n - m,
{
    if m < n {
        lemma_scan_error_stays(phs, m, n - 1, data_len, limit, mem);
    }
}

/// The memory `mem`, whose first byte has the address `base`, after the
/// first `n` steps of `plan` copied their bytes from `data`.
pub open spec fn spec_loaded(
    mem: Seq<u8>,
    base: int,
    data: Seq<u8>,
    plan: Seq<LoadStep>,
    n: int,
) -> Seq<u8>
    decreases n,
{
    if n <= 0 {
        mem
    } else {
        spec_write(
            spec_loaded(mem, base, data, plan, n - 1),
            plan[n - 1].paddr - base,
            data.subrange(plan[n - 1].offset as int, plan[n - 1].offset + plan[n - 1].file_size),
        )
    }
}

/// The shapes of the areas of the segments of `plan`, in order.
pub open spec fn spec_plan_shapes(plan: Seq<LoadStep>) -> Seq<AreaShape> {
    Seq::new(plan.len(), |i: int| plan[i].spec_shape())
}

/// Number of pages that `len` bytes take.
pub(crate) fn page_count(len: u64) -> (n: u64)
    ensures
        n == spec_page_count(len as int),
        n <= 0x10_0000_0000_0000,
{
    if len % 4096 == 0 {
        len / 4096
    } else {
        len / 4096 + 1
    }
}

/// Plans the loading of the loadable segments among `phs`, in the order of
/// the headers, or says why the first segment that cannot be loaded cannot.
pub(crate) fn plan_load(phs: &Vec<ProgramHeader>, data_len: usize, limit: u64, mem: &PhysMemory) -> (r:
    Result<Vec<LoadStep>, MemorySetError>)
    requires
        GUEST_START_PA <= limit,
    ensures
        r matches Err(e) ==> spec_scan_error(
            phs@,
            phs@.len() as int,
            data_len as int,
            limit as int,
            *mem,
        ) == Some(e),
        r matches Ok(plan) ==> {
            &&& spec_scan_error(phs@, phs@.len() as int, data_len as int, limit as int, *mem)
                is None
            &&& plan@ == spec_plan(phs@, phs@.len() as int)
            &&& GUEST_START_PA <= spec_plan_end(plan@) <= limit
            &&& spec_plan_end(plan@) % 4096 == 0
            &&& forall|j: int|
                0 <= j < plan@.len() ==> {
                    &&& (#[trigger] plan@[j]).spec_error(data_len as int, limit as int, *mem)
                        is None
                    &&& plan@[j].paddr % 4096 == 0
                    &&& GUEST_START_PA <= plan@[j].paddr
                }
        },
{
    let mut plan: Vec<LoadStep> = Vec::new();
    let mut paddr: u64 = GUEST_START_PA;
    let mut i: usize = 0;
    while i < phs.len()
        invariant
            i <= phs@.len(),
            GUEST_START_PA <= paddr <= limit,
            paddr % 4096 == 0,
            paddr == spec_plan_end(plan@),
            plan@ == spec_plan(phs@, i as int),
            spec_scan_error(phs@, i as int, data_len as int, limit as int, *mem) is None,
            forall|j: int|
                0 <= j < plan@.len() ==> {
                    &&& (#[trigger] plan@[j]).spec_error(data_len as int, limit as int, *mem)
                        is None
                    &&& plan@[j].paddr % 4096 == 0
                    &&& GUEST_START_PA <= plan@[j].paddr
                },
        decreases phs@.len() - i,
    {
        let ph: ProgramHeader = phs[i];
        if ph.is_load() {
            let ghost step = spec_step(ph, paddr as int);
            let pages: u64 = page_count(ph.mem_size);
            let mut error: Option<MemorySetError> = None;
            if ph.offset > data_len as u64 || ph.file_size > data_len as u64 - ph.offset
                || ph.mem_size > u64::MAX - ph.virtual_addr {
                error = Some(MemorySetError::BadSegment);
            } else if VirtAddr(ph.virtual_addr + ph.mem_size).ceil().0 - VirtAddr(
                ph.virtual_addr,
            ).floor().0 != pages {
                error = Some(MemorySetError::BadSegment);
            } else if pages > (limit - paddr) / 4096 || !mem.contains(paddr, ph.file_size) {
                error = Some(MemorySetError::TooLarge);
            }
            assert(error == step.spec_error(data_len as int, limit as int, *mem));
            match error {
                Some(e) => {
                    proof {
                        assert(spec_scan_error(
                            phs@,
                            i + 1,
                            data_len as int,
                            limit as int,
                            *mem,
                        ) == Some(e));
                        lemma_scan_error_stays(
                            phs@,
                            i + 1,
                            phs@.len() as int,
                            data_len as int,
                            limit as int,
                            *mem,
                        );
                    }
                    return Err(e);
                },
                None => {},
            }
            plan.push(
                LoadStep {
                    virtual_addr: ph.virtual_addr,
                    mem_size: ph.mem_size,
                    offset: ph.offset,
                    file_size: ph.file_size,
                    paddr,
                    perm: segment_perm(ph.flags),
                },
            );
            paddr = paddr + pages * 4096;
        }
        i = i + 1;
    }
    Ok(plan)
}

} // verus!

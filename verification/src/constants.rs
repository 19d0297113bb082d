//! Sizes and the fixed virtual-memory layout.

use vstd::prelude::*;

verus! {

/// Number of offset bits inside a page.
pub const PAGE_SIZE_BITS: u64 = 12;

/// Bytes per page.
pub const PAGE_SIZE: u64 = 0x1000;

/// Virtual address of the trampoline page: the last page of the address space.
pub const TRAMPOLINE: u64 = 0xffff_ffff_ffff_f000;

/// Virtual address of the trap context page, just below the trampoline.
pub const TRAP_CONTEXT: u64 = 0xffff_ffff_ffff_e000;

/// End of the physical memory that the hypervisor itself uses.
pub const MEMORY_END: u64 = 0x8800_0000;

/// Host physical address at which guest memory starts.
pub const GUEST_START_PA: u64 = 0x8800_0000;

/// Guest virtual (and guest physical) address at which guest memory starts.
pub const GUEST_START_VA: u64 = 0x8000_0000;

} // verus!

//! What is known of the machine: its memory, its memory-mapped devices, and
//! where the hypervisor's own image lies.

use vstd::prelude::*;

verus! {

/// A memory-mapped region: `size` bytes from `base_address` on.
#[derive(Copy, Clone, Debug, PartialEq, Eq, Structural)]
pub struct Device {
    pub base_address: u64,
    pub size: u64,
}

impl Device {
    /// First address past the region.
    pub open spec fn spec_end(&self) -> int {
        self.base_address + self.size
    }
}

/// The memory and the devices of a machine.  Each device may be absent.
#[derive(Debug)]
pub struct MachineMeta {
    pub physical_memory_offset: u64,
    pub physical_memory_size: u64,
    pub virtio: Vec<Device>,
    pub test_finisher_address: Option<Device>,
    pub uart: Option<Device>,
    pub clint: Option<Device>,
    pub plic: Option<Device>,
    pub pci: Option<Device>,
}

/// Where the sections of the hypervisor's image start and end, as physical
/// addresses, and where the trampoline code lies.
#[derive(Copy, Clone, Debug, PartialEq, Eq, Structural)]
pub struct KernelLayout {
    pub stext: u64,
    pub etext: u64,
    pub srodata: u64,
    pub erodata: u64,
    pub sdata: u64,
    pub edata: u64,
    pub sbss_with_stack: u64,
    pub ebss: u64,
    pub ekernel: u64,
    pub strampoline: u64,
}

} // verus!

//! The state of the hypervisor: its own address space, its guests, and the
//! interrupt controller that it emulates for them.

use crate::device_emu::plic::PlicState;
use crate::mm::memory_set::{GuestMemorySet, HostMemorySet};
use vstd::prelude::*;

verus! {

/// One guest.
pub struct Guest {
    pub guest_id: usize,
    /// The guest-stage address space of the guest.
    pub gpm: GuestMemorySet,
}

/// The hypervisor.
pub struct HostVmm {
    /// The address space of the hypervisor.
    pub hpm: HostMemorySet,
    /// The guests, by their ids.
    pub guests: Vec<Option<Guest>>,
    /// The guest that runs on this hart.
    pub guest_id: usize,
    /// Whether an external interrupt waits to be forwarded to the guest.
    pub irq_pending: bool,
    /// The emulated interrupt controller.
    pub host_plic: Option<PlicState>,
}

impl HostVmm {
    /// Whether the guest that runs on this hart exists.
    pub open spec fn has_current_guest(&self) -> bool {
        self.guest_id < self.guests@.len() && self.guests@[self.guest_id as int] is Some
    }

    /// The context of the interrupt controller that belongs to the guest
    /// that runs on this hart: even contexts are for machine mode, odd ones
    /// for supervisor mode.
    pub open spec fn spec_context_id(&self) -> int {
        2 * self.guest_id + 1
    }

    /// Whether there is an interrupt controller with well-formed tables
    /// that hold the context of the current guest.
    pub open spec fn has_plic_context(&self) -> bool {
        self.host_plic matches Some(plic) && plic.wf() && self.spec_context_id()
            < plic.claim_complete@.len()
    }

    /// A hypervisor with the address space `hpm` and no guest.
    pub fn new(hpm: HostMemorySet) -> (vmm: Self)
        ensures
            vmm.hpm == hpm,
            vmm.guests@ == Seq::<Option<Guest>>::empty(),
            vmm.guest_id == 0,
            !vmm.irq_pending,
            vmm.host_plic is None,
    {
        HostVmm { hpm, guests: Vec::new(), guest_id: 0, irq_pending: false, host_plic: None }
    }

    /// Whether the guest that runs on this hart exists.
    pub fn has_guest(&self) -> (b: bool)
        ensures
            b == self.has_current_guest(),
    {
        self.guest_id < self.guests.len() && self.guests[self.guest_id].is_some()
    }

    /// Whether there is an interrupt controller with well-formed tables
    /// that hold the context of the current guest.
    pub fn has_plic(&self) -> (b: bool)
        ensures
            b == self.has_plic_context(),
    {
        match &self.host_plic {
            Some(plic) => {
                let contexts: usize = plic.claim_complete.len();
                contexts == plic.threshold.len() && self.guest_id < contexts / 2 && 2
                    * self.guest_id + 1 < contexts
            },
            None => false,
        }
    }

    /// Adds a guest with the address space `gpm` and gives its id.
    pub fn add_guest(&mut self, gpm: GuestMemorySet) -> (guest_id: usize)
        ensures
            guest_id == old(self).guests@.len(),
            final(self).guests@ == old(self).guests@.push(Some(Guest { guest_id, gpm })),
            final(self).hpm == old(self).hpm,
            final(self).guest_id == old(self).guest_id,
            final(self).irq_pending == old(self).irq_pending,
            final(self).host_plic == old(self).host_plic,
    {
        let guest_id: usize = self.guests.len();
        self.guests.push(Some(Guest { guest_id, gpm }));
        guest_id
    }
}

} // verus!

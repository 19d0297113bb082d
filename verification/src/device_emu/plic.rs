//! The interrupt controller as a guest sees it.
//!
//! Each hart context has a page of registers from offset `0x20_0000` of the
//! controller on: the threshold in its first word, claim and complete in its
//! second.  The hypervisor keeps, for each context, the threshold that the
//! guest set and the interrupt that was claimed for it last.

use crate::error::VmmError;
use crate::guest::pmap::Instruction;
use crate::trap::context::TrapContext;
use vstd::prelude::*;

verus! {

/// Bytes of the window of the controller.
pub const PLIC_SIZE: u64 = 0x400_0000;

/// Offset of the registers of the first context.
pub const PLIC_CONTEXT_BASE: u64 = 0x20_0000;

/// Bytes of the registers of one context.
pub const PLIC_CONTEXT_STRIDE: u64 = 0x1000;

/// Offset of the claim and complete register of the first context.
pub const PLIC_CLAIM_OFFSET: u64 = 0x20_0004;

/// The state of the emulated controller.
pub struct PlicState {
    /// Guest physical address of the controller.
    pub base_addr: u64,
    /// For each context, the interrupt that was claimed for it last, zero
    /// where none is outstanding.
    pub claim_complete: Vec<u32>,
    /// For each context, the threshold that the guest set.
    pub threshold: Vec<u32>,
}

/// A word that is to be written to the controller of the machine.
#[derive(Copy, Clone, PartialEq, Eq, Debug, Structural)]
pub struct PlicWrite {
    /// Offset of the register in the controller.
    pub offset: u64,
    /// The word.
    pub value: u32,
}

/// Which register of a context an access at `offset` meets.
#[derive(Copy, Clone, PartialEq, Eq, Debug, Structural)]
pub enum PlicRegister {
    /// The priority below which interrupts are held back.
    Threshold,
    /// Read to claim an interrupt, written to complete it.
    ClaimComplete,
}

/// What an emulated access has done.
pub struct PlicAccess {
    /// The registers of the guest after the access.
    pub x: Seq<u64>,
    /// The claims after the access.
    pub claim_complete: Seq<u32>,
    /// The thresholds after the access.
    pub threshold: Seq<u32>,
    /// What is to be written to the controller of the machine.
    pub write: Option<PlicWrite>,
}

/// The registers `x` with `value` in register `rd`.  Register zero stays
/// zero.
pub open spec fn spec_set_register(x: Seq<u64>, rd: int, value: u64) -> Seq<u64> {
    if rd == 0 {
        x
    } else {
        x.update(rd, value)
    }
}

impl PlicState {
    /// Both tables have an entry for each context.
    pub open spec fn wf(&self) -> bool {
        self.claim_complete@.len() == self.threshold@.len()
    }

    /// Whether the guest physical address `addr` lies in the window of the
    /// controller.
    pub open spec fn spec_is_plic_access(&self, addr: u64) -> bool {
        self.base_addr <= addr && addr - self.base_addr < PLIC_SIZE
    }

    /// The context whose registers hold the offset `offset`, if it is one
    /// that the tables know.
    pub open spec fn spec_context(&self, offset: u64) -> Option<int> {
        if offset >= PLIC_CONTEXT_BASE && (offset - PLIC_CONTEXT_BASE) / (
        PLIC_CONTEXT_STRIDE as int) < self.claim_complete@.len() {
            Some((offset - PLIC_CONTEXT_BASE) / (PLIC_CONTEXT_STRIDE as int))
        } else {
            None
        }
    }

    /// The register of a context that the offset `offset` meets, if any.
    pub open spec fn spec_register(offset: u64) -> Option<PlicRegister> {
        if offset % PLIC_CONTEXT_STRIDE == 0 {
            Some(PlicRegister::Threshold)
        } else if offset % PLIC_CONTEXT_STRIDE == 4 {
            Some(PlicRegister::ClaimComplete)
        } else {
            None
        }
    }

    /// What the access `inst` at the guest physical address `addr` does, by
    /// a guest with the registers `x`.
    ///
    /// A load of the claim register gives the interrupt that was claimed
    /// last for the context and forgets it.  A store to it completes the
    /// interrupt: the claim is forgotten and the word goes on to the
    /// controller of the machine.  A store to the threshold is kept and goes
    /// on to the controller of the machine; a load gives it back.  An access
    /// outside the window is answered by no device; any other access is not
    /// supported.
    pub open spec fn spec_access(&self, x: Seq<u64>, addr: u64, inst: Instruction) -> Result<
        PlicAccess,
        VmmError,
    > {
        if !self.spec_is_plic_access(addr) {
            Err(VmmError::DeviceNotFound)
        } else {
            let offset = (addr - self.base_addr) as u64;
            match (self.spec_context(offset), Self::spec_register(offset)) {
                (Some(c), Some(PlicRegister::ClaimComplete)) => match inst {
                    Instruction::Lw { rd } => Ok(
                        PlicAccess {
                            x: spec_set_register(x, rd as int, self.claim_complete@[c] as u64),
                            claim_complete: self.claim_complete@.update(c, 0u32),
                            threshold: self.threshold@,
                            write: None,
                        },
                    ),
                    Instruction::Sw { rs2 } => Ok(
                        PlicAccess {
                            x,
                            claim_complete: self.claim_complete@.update(c, 0u32),
                            threshold: self.threshold@,
                            write: Some(PlicWrite { offset, value: (x[rs2 as int] % 0x1_0000_0000) as u32 }),
                        },
                    ),
                },
                (Some(c), Some(PlicRegister::Threshold)) => match inst {
                    Instruction::Lw { rd } => Ok(
                        PlicAccess {
                            x: spec_set_register(x, rd as int, self.threshold@[c] as u64),
                            claim_complete: self.claim_complete@,
                            threshold: self.threshold@,
                            write: None,
                        },
                    ),
                    Instruction::Sw { rs2 } => Ok(
                        PlicAccess {
                            x,
                            claim_complete: self.claim_complete@,
                            threshold: self.threshold@.update(
                                c,
                                (x[rs2 as int] % 0x1_0000_0000) as u32,
                            ),
                            write: Some(PlicWrite { offset, value: (x[rs2 as int] % 0x1_0000_0000) as u32 }),
                        },
                    ),
                },
                _ => Err(VmmError::Unimplemented),
            }
        }
    }

    /// A controller at `base_addr` with `contexts` contexts, no claim
    /// outstanding and all thresholds zero.
    pub fn new(base_addr: u64, contexts: usize) -> (plic: Self)
        ensures
            plic.wf(),
            plic.base_addr == base_addr,
            plic.claim_complete@ == Seq::new(contexts as nat, |i: int| 0u32),
            plic.threshold@ == Seq::new(contexts as nat, |i: int| 0u32),
    {
        let mut claim_complete: Vec<u32> = Vec::new();
        let mut threshold: Vec<u32> = Vec::new();
        let mut i: usize = 0;
        while i < contexts
            invariant
                i <= contexts,
                claim_complete@ == Seq::new(i as nat, |k: int| 0u32),
                threshold@ == Seq::new(i as nat, |k: int| 0u32),
            decreases contexts - i,
        {
            claim_complete.push(0);
            threshold.push(0);
            i = i + 1;
            assert(claim_complete@ =~= Seq::new(i as nat, |k: int| 0u32));
            assert(threshold@ =~= Seq::new(i as nat, |k: int| 0u32));
        }
        PlicState { base_addr, claim_complete, threshold }
    }

    /// Whether the guest physical address `addr` lies in the window of the
    /// controller.
    pub fn is_plic_access(&self, addr: u64) -> (b: bool)
        ensures
            b == self.spec_is_plic_access(addr),
    {
        self.base_addr <= addr && addr - self.base_addr < PLIC_SIZE
    }

    /// Emulates the access `inst` of the guest at the guest physical address
    /// `addr`, and says what is to be written to the controller of the
    /// machine.  Where the access fails, nothing changes.
    pub fn handle_plic_access(&mut self, ctx: &mut TrapContext, addr: u64, inst: Instruction) -> (r:
        Result<Option<PlicWrite>, VmmError>)
        requires
            old(self).wf(),
            inst matches Instruction::Lw { rd } ==> rd < 32,
            inst matches Instruction::Sw { rs2 } ==> rs2 < 32,
        ensures
            final(self).wf(),
            final(self).base_addr == old(self).base_addr,
            final(ctx).sepc == old(ctx).sepc,
            final(ctx).sstatus == old(ctx).sstatus,
            final(ctx).hgatp == old(ctx).hgatp,
            match old(self).spec_access(old(ctx).x@, addr, inst) {
                Ok(access) => {
                    &&& r == Ok::<Option<PlicWrite>, VmmError>(access.write)
                    &&& final(ctx).x@ == access.x
                    &&& final(self).claim_complete@ == access.claim_complete
                    &&& final(self).threshold@ == access.threshold
                },
                Err(e) => {
                    &&& r == Err::<Option<PlicWrite>, VmmError>(e)
                    &&& final(ctx).x@ == old(ctx).x@
                    &&& final(self).claim_complete@ == old(self).claim_complete@
                    &&& final(self).threshold@ == old(self).threshold@
                },
            },
    {
        if !self.is_plic_access(addr) {
            return Err(VmmError::DeviceNotFound);
        }
        let offset: u64 = addr - self.base_addr;
        if offset < PLIC_CONTEXT_BASE {
            return Err(VmmError::Unimplemented);
        }
        let context: u64 = (offset - PLIC_CONTEXT_BASE) / PLIC_CONTEXT_STRIDE;
        let contexts: usize = self.claim_complete.len();
        if context >= contexts as u64 {
            return Err(VmmError::Unimplemented);
        }
        let c: usize = context as usize;
        let register: u64 = offset % PLIC_CONTEXT_STRIDE;
        if register == 4 {
            match inst {
                Instruction::Lw { rd } => {
                    let irq: u32 = self.claim_complete[c];
                    if rd != 0 {
                        ctx.x[rd] = irq as u64;
                    }
                    self.claim_complete[c] = 0;
                    Ok(None)
                },
                Instruction::Sw { rs2 } => {
                    let value: u32 = (ctx.x[rs2] % 0x1_0000_0000) as u32;
                    self.claim_complete[c] = 0;
                    Ok(Some(PlicWrite { offset, value }))
                },
            }
        } else if register == 0 {
            match inst {
                Instruction::Lw { rd } => {
                    let level: u32 = self.threshold[c];
                    if rd != 0 {
                        ctx.x[rd] = level as u64;
                    }
                    Ok(None)
                },
                Instruction::Sw { rs2 } => {
                    let value: u32 = (ctx.x[rs2] % 0x1_0000_0000) as u32;
                    self.threshold[c] = value;
                    Ok(Some(PlicWrite { offset, value }))
                },
            }
        } else {
            Err(VmmError::Unimplemented)
        }
    }
}

} // verus!

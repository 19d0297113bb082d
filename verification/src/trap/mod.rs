//! Handling of the traps that leave a guest.
//!
//! A trap is handled in three steps.  `trap_request` says what the handler
//! needs from the machine: an answer of its firmware, or the interrupt that
//! its interrupt controller has to hand out.  `trap_handler` takes that and
//! decides: it changes the saved state of the guest, the registers and the
//! state of the hypervisor, and says how the trap ends.  `switch_to_guest`
//! prepares the registers for the way back into the guest.

pub mod context;

use crate::constants::TRAMPOLINE;
use crate::csr::{scause_cause, status_sie, status_spp, Csrs, SIE_STIMER};
use crate::csr::{spec_cause_code, spec_is_interrupt, spec_status_sie, spec_status_spp};
use crate::device_emu::plic::{PlicAccess, PlicWrite, PLIC_CLAIM_OFFSET};
use crate::device_emu::plic::PLIC_CONTEXT_STRIDE;
use crate::error::{VmmError, VmmResult};
use crate::guest::pmap::{decode_inst, decode_inst_at_addr, two_stage_translation, Instruction};
use crate::guest::pmap::{spec_decode, spec_fetch, spec_inst_len, spec_two_stage};
use crate::guest::sbi::{sbi_firmware_call, sbi_vs_handler, spec_firmware_call, spec_sbi_reply};
use crate::guest::sbi::{spec_sets_timer, spec_timer_armed, FirmwareCall, SbiRet};
use crate::guest::sbi::{SBI_CONSOLE_GETCHAR, SBI_CONSOLE_PUTCHAR, SBI_SET_TIMER};
use crate::hypervisor::HostVmm;
use crate::memory::PhysMemory;
use crate::trap::context::{TrapContext, A0, A1, A6, A7};
use vstd::prelude::*;

verus! {

/// Exception code: illegal instruction.
pub const EXC_ILLEGAL_INSTRUCTION: u64 = 2;

/// Exception code: environment call from user mode.
pub const EXC_USER_ENV_CALL: u64 = 8;

/// Exception code: environment call from the guest's supervisor mode.
pub const EXC_VS_ENV_CALL: u64 = 10;

/// Exception code: guest-page fault on an instruction fetch.
pub const EXC_INST_GUEST_PAGE_FAULT: u64 = 20;

/// Exception code: guest-page fault on a load.
pub const EXC_LOAD_GUEST_PAGE_FAULT: u64 = 21;

/// Exception code: virtual instruction.
pub const EXC_VIRTUAL_INSTRUCTION: u64 = 22;

/// Exception code: guest-page fault on a store.
pub const EXC_STORE_GUEST_PAGE_FAULT: u64 = 23;

/// Interrupt code: supervisor external interrupt.
pub const INT_SUPERVISOR_EXTERNAL: u64 = 9;

/// Value of the trap instruction register for a fault on a read during the
/// guest's own page-table walk.
pub const PSEUDO_INST_READ: u64 = 0x3000;

/// Value of the trap instruction register for a fault on a write during the
/// guest's own page-table walk.
pub const PSEUDO_INST_WRITE: u64 = 0x3020;

/// Why a guest trapped, as far as the hypervisor tells causes apart.
#[derive(Copy, Clone, PartialEq, Eq, Debug, Structural)]
pub enum TrapCause {
    UserEnvCall,
    VirtualSupervisorEnvCall,
    VirtualInstruction,
    IllegalInstruction,
    InstructionGuestPageFault,
    LoadGuestPageFault,
    StoreGuestPageFault,
    SupervisorExternal,
    Other,
}

/// The cause that the cause register `scause` holds.
pub open spec fn spec_trap_cause(scause: u64) -> TrapCause {
    let code = spec_cause_code(scause);
    if spec_is_interrupt(scause) {
        if code == INT_SUPERVISOR_EXTERNAL {
            TrapCause::SupervisorExternal
        } else {
            TrapCause::Other
        }
    } else if code == EXC_USER_ENV_CALL {
        TrapCause::UserEnvCall
    } else if code == EXC_VS_ENV_CALL {
        TrapCause::VirtualSupervisorEnvCall
    } else if code == EXC_VIRTUAL_INSTRUCTION {
        TrapCause::VirtualInstruction
    } else if code == EXC_ILLEGAL_INSTRUCTION {
        TrapCause::IllegalInstruction
    } else if code == EXC_INST_GUEST_PAGE_FAULT {
        TrapCause::InstructionGuestPageFault
    } else if code == EXC_LOAD_GUEST_PAGE_FAULT {
        TrapCause::LoadGuestPageFault
    } else if code == EXC_STORE_GUEST_PAGE_FAULT {
        TrapCause::StoreGuestPageFault
    } else {
        TrapCause::Other
    }
}

/// The cause that the cause register `scause` holds.
pub fn trap_cause(scause: u64) -> (cause: TrapCause)
    ensures
        cause == spec_trap_cause(scause),
{
    let (interrupt, code) = scause_cause(scause);
    if interrupt {
        if code == INT_SUPERVISOR_EXTERNAL {
            TrapCause::SupervisorExternal
        } else {
            TrapCause::Other
        }
    } else if code == EXC_USER_ENV_CALL {
        TrapCause::UserEnvCall
    } else if code == EXC_VS_ENV_CALL {
        TrapCause::VirtualSupervisorEnvCall
    } else if code == EXC_VIRTUAL_INSTRUCTION {
        TrapCause::VirtualInstruction
    } else if code == EXC_ILLEGAL_INSTRUCTION {
        TrapCause::IllegalInstruction
    } else if code == EXC_INST_GUEST_PAGE_FAULT {
        TrapCause::InstructionGuestPageFault
    } else if code == EXC_LOAD_GUEST_PAGE_FAULT {
        TrapCause::LoadGuestPageFault
    } else if code == EXC_STORE_GUEST_PAGE_FAULT {
        TrapCause::StoreGuestPageFault
    } else {
        TrapCause::Other
    }
}

/// The trap vector for traps that the hypervisor itself takes: the place
/// of the entry for such traps in the trampoline page, where the trampoline
/// code starts at `alltraps` and that entry lies at `alltraps_k`.
pub open spec fn spec_kernel_trap_entry(alltraps: u64, alltraps_k: u64) -> int {
    alltraps_k - alltraps + TRAMPOLINE
}

/// Sets the trap vector to the entry for traps that the hypervisor itself
/// takes.
pub fn init(csrs: &mut Csrs, alltraps: u64, alltraps_k: u64)
    requires
        alltraps <= alltraps_k,
        alltraps_k - alltraps < 0x1000,
    ensures
        *final(csrs) == (Csrs {
            stvec: spec_kernel_trap_entry(alltraps, alltraps_k) as u64,
            ..*old(csrs)
        }),
{
    set_kernel_trap_entry(csrs, alltraps, alltraps_k);
}

/// Enables the timer interrupt of the hypervisor.
pub fn enable_timer_interrupt(csrs: &mut Csrs)
    ensures
        *final(csrs) == (Csrs { sie: old(csrs).sie | SIE_STIMER, ..*old(csrs) }),
        final(csrs).sie & SIE_STIMER != 0,
{
    let sie: u64 = csrs.sie;
    assert((sie | 0x20u64) & 0x20u64 != 0) by (bit_vector);
    csrs.sie = sie | SIE_STIMER;
}

/// Disables the timer interrupt of the hypervisor.
pub fn disable_timer_interrupt(csrs: &mut Csrs)
    ensures
        *final(csrs) == (Csrs { sie: old(csrs).sie & !SIE_STIMER, ..*old(csrs) }),
        final(csrs).sie & SIE_STIMER == 0,
{
    let sie: u64 = csrs.sie;
    assert((sie & !0x20u64) & 0x20u64 == 0) by (bit_vector);
    csrs.sie = sie & !SIE_STIMER;
}

/// Sets the trap vector to the entry for traps that the hypervisor itself
/// takes.
pub fn set_kernel_trap_entry(csrs: &mut Csrs, alltraps: u64, alltraps_k: u64)
    requires
        alltraps <= alltraps_k,
        alltraps_k - alltraps < 0x1000,
    ensures
        *final(csrs) == (Csrs {
            stvec: spec_kernel_trap_entry(alltraps, alltraps_k) as u64,
            ..*old(csrs)
        }),
{
    csrs.stvec = alltraps_k - alltraps + TRAMPOLINE;
}

/// Sets the trap vector to the entry for traps out of a guest: the start of
/// the trampoline page.
pub fn set_user_trap_entry(csrs: &mut Csrs)
    ensures
        *final(csrs) == (Csrs { stvec: TRAMPOLINE, ..*old(csrs) }),
{
    csrs.stvec = TRAMPOLINE;
}

/// The legacy calls alone: console output, console input and the timer.
/// `input` is what the machine firmware read from the console.  A byte that
/// was read goes to `a0`; any other call than these three is not
/// implemented and changes nothing.
pub fn sbi_handler(ctx: &mut TrapContext, input: u64) -> (r: VmmResult)
    ensures
        final(ctx).sepc == old(ctx).sepc,
        final(ctx).sstatus == old(ctx).sstatus,
        final(ctx).hgatp == old(ctx).hgatp,
        r == if old(ctx).x@[A7 as int] == SBI_CONSOLE_PUTCHAR || old(ctx).x@[A7 as int]
            == SBI_CONSOLE_GETCHAR || old(ctx).x@[A7 as int] == SBI_SET_TIMER {
            Ok::<(), VmmError>(())
        } else {
            Err::<(), VmmError>(VmmError::Unimplemented)
        },
        final(ctx).x@ == if old(ctx).x@[A7 as int] == SBI_CONSOLE_GETCHAR {
            old(ctx).x@.update(A0 as int, input)
        } else {
            old(ctx).x@
        },
{
    let ext_id: u64 = ctx.x[A7];
    if ext_id == SBI_CONSOLE_PUTCHAR {
    } else if ext_id == SBI_CONSOLE_GETCHAR {
        ctx.x[A0] = input;
    } else if ext_id == SBI_SET_TIMER {
    } else {
        return Err(VmmError::Unimplemented);
    }
    Ok(())
}

/// Emulation of a privileged instruction of the guest.  None is emulated
/// yet.
pub fn privileged_inst_handler(ctx: &mut TrapContext) -> (r: VmmResult)
    ensures
        r == Err::<(), VmmError>(VmmError::Unimplemented),
        *final(ctx) == *old(ctx),
{
    Err(VmmError::Unimplemented)
}

/// The guest physical address of a guest-page fault: the trap value
/// register holds it shifted right by two bits.
pub open spec fn spec_fault_addr(htval: u64) -> u64 {
    ((htval % 0x4000_0000_0000_0000) * 4) as u64
}

/// The instruction behind a guest-page fault, and its length: read from
/// memory at the guest's program counter `sepc` where the trap instruction
/// register is zero, else the register itself, which holds the instruction
/// with its second bit cleared if it is a compressed one.
pub open spec fn spec_fault_inst(
    mem: PhysMemory,
    areas: Seq<crate::mm::map_area::MapArea>,
    csrs: Csrs,
    sepc: u64,
) -> Result<(u64, Instruction), VmmError> {
    if csrs.htinst == 0 {
        match spec_two_stage(mem, areas, csrs.vsatp, sepc) {
            None => Err(VmmError::TranslationError),
            Some(addr) => match spec_fetch(mem, addr) {
                None => Err(VmmError::DecodeInstError),
                Some(raw) => match spec_decode(raw) {
                    None => Err(VmmError::DecodeInstError),
                    Some(inst) => Ok((spec_inst_len(raw), inst)),
                },
            },
        }
    } else if csrs.htinst == PSEUDO_INST_WRITE || csrs.htinst == PSEUDO_INST_READ {
        Err(VmmError::PseudoInst)
    } else {
        match spec_decode(spec_full_form(csrs.htinst)) {
            None => Err(VmmError::DecodeInstError),
            Some(inst) => Ok((spec_reported_len(csrs.htinst), inst)),
        }
    }
}

/// The low 32 bits of the trap instruction register with the second bit
/// set: the instruction in its full form.
pub open spec fn spec_full_form(htinst: u64) -> u32 {
    if (htinst / 2) % 2 == 0 {
        (htinst % 0x1_0000_0000 + 2) as u32
    } else {
        (htinst % 0x1_0000_0000) as u32
    }
}

/// Length of the instruction that the trap instruction register reports:
/// two where its second bit is clear, else four.
pub open spec fn spec_reported_len(htinst: u64) -> u64 {
    if (htinst / 2) % 2 == 0 {
        2
    } else {
        4
    }
}

/// What a guest-page fault on a load or store leads to: the emulated access
/// and the length of the instruction, or the error.
pub open spec fn spec_page_fault(
    host_vmm: HostVmm,
    ctx: TrapContext,
    csrs: Csrs,
    mem: PhysMemory,
) -> Result<(PlicAccess, u64), VmmError> {
    match host_vmm.host_plic {
        None => Err(VmmError::DeviceNotFound),
        Some(plic) => if !plic.spec_is_plic_access(spec_fault_addr(csrs.htval)) {
            Err(VmmError::DeviceNotFound)
        } else {
            match spec_fault_inst(
                mem,
                host_vmm.guests@[host_vmm.guest_id as int].unwrap().gpm.areas@,
                csrs,
                ctx.sepc,
            ) {
                Err(e) => Err(e),
                Ok((len, inst)) => match plic.spec_access(ctx.x@, csrs.stval, inst) {
                    Err(e) => Err(e),
                    Ok(access) => Ok((access, len)),
                },
            }
        },
    }
}

/// Handles a guest-page fault on a load or store.  Where the fault lies in
/// the window of the emulated interrupt controller, the instruction is
/// found, the access is emulated, and the guest's program counter moves
/// past the instruction.  The result says what is to be written to the
/// controller of the machine.  Where the fault cannot be handled, nothing
/// changes.
pub fn guest_page_fault_handler(
    host_vmm: &mut HostVmm,
    ctx: &mut TrapContext,
    csrs: &Csrs,
    mem: &PhysMemory,
) -> (r: Result<Option<PlicWrite>, VmmError>)
    requires
        old(host_vmm).has_current_guest(),
        old(host_vmm).host_plic matches Some(plic) ==> plic.wf(),
        old(ctx).sepc <= u64::MAX - 4,
    ensures
        final(host_vmm).guest_id == old(host_vmm).guest_id,
        final(host_vmm).irq_pending == old(host_vmm).irq_pending,
        final(host_vmm).guests == old(host_vmm).guests,
        final(host_vmm).hpm == old(host_vmm).hpm,
        final(host_vmm).host_plic is Some == old(host_vmm).host_plic is Some,
        final(ctx).sstatus == old(ctx).sstatus,
        final(ctx).hgatp == old(ctx).hgatp,
        match spec_page_fault(*old(host_vmm), *old(ctx), *csrs, *mem) {
            Ok((access, len)) => {
                &&& r == Ok::<Option<PlicWrite>, VmmError>(access.write)
                &&& final(ctx).x@ == access.x
                &&& final(ctx).sepc == old(ctx).sepc + len
                &&& final(host_vmm).host_plic matches Some(plic) && plic.base_addr == old(host_vmm).host_plic.unwrap().base_addr && plic.claim_complete@ == access.claim_complete
                    && plic.threshold@ == access.threshold && plic.wf()
            },
            Err(e) => {
                &&& r == Err::<Option<PlicWrite>, VmmError>(e)
                &&& final(ctx).x@ == old(ctx).x@
                &&& final(ctx).sepc == old(ctx).sepc
                &&& final(host_vmm).host_plic matches Some(plic) ==> plic.base_addr == old(host_vmm).host_plic.unwrap().base_addr && plic.claim_complete@ == old(host_vmm).host_plic.unwrap().claim_complete@ && plic.threshold@ == old(host_vmm).host_plic.unwrap().threshold@
            },
        },
{
    let addr: u64 = (csrs.htval % 0x4000_0000_0000_0000) * 4;
    let in_window: bool = match &host_vmm.host_plic {
        Some(plic) => plic.is_plic_access(addr),
        None => false,
    };
    if !in_window {
        return Err(VmmError::DeviceNotFound);
    }
    let inst_raw: u64 = csrs.htinst;
    let len: u64;
    let inst: Instruction;
    if inst_raw == 0 {
        let gpm = match &host_vmm.guests[host_vmm.guest_id] {
            Some(guest) => &guest.gpm,
            None => {
                return Err(VmmError::TranslationError);
            },
        };
        let host_inst_addr: u64 = match two_stage_translation(
            host_vmm.guest_id,
            ctx.sepc,
            csrs.vsatp,
            gpm,
            mem,
        ) {
            Some(a) => a,
            None => {
                return Err(VmmError::TranslationError);
            },
        };
        match decode_inst_at_addr(mem, host_inst_addr) {
            Some((l, Some(i))) => {
                len = l;
                inst = i;
            },
            _ => {
                return Err(VmmError::DecodeInstError);
            },
        }
    } else if inst_raw == PSEUDO_INST_WRITE || inst_raw == PSEUDO_INST_READ {
        return Err(VmmError::PseudoInst);
    } else {
        let compressed: bool = (inst_raw / 2) % 2 == 0;
        let raw: u32 = if compressed {
            (inst_raw % 0x1_0000_0000 + 2) as u32
        } else {
            (inst_raw % 0x1_0000_0000) as u32
        };
        match decode_inst(raw).1 {
            Some(i) => {
                inst = i;
            },
            None => {
                return Err(VmmError::DecodeInstError);
            },
        }
        len = if compressed {
            2
        } else {
            4
        };
    }
    let write: Option<PlicWrite> = match &mut host_vmm.host_plic {
        Some(plic) => match plic.handle_plic_access(ctx, csrs.stval, inst) {
            Ok(w) => w,
            Err(e) => {
                return Err(e);
            },
        },
        None => {
            return Err(VmmError::DeviceNotFound);
        },
    };
    ctx.sepc = ctx.sepc + len;
    Ok(write)
}

/// Whether an interrupt is delivered to the guest with the status `vsstatus`
/// and the pending and enabled interrupts `vsip` and `vsie`: the guest was in
/// its supervisor mode with interrupts enabled, or it was in its user mode
/// and some interrupt is both pending and enabled.
pub open spec fn spec_guest_takes_interrupt(csrs: Csrs) -> bool {
    (spec_status_spp(csrs.vsstatus) && spec_status_sie(csrs.vsstatus)) || (!spec_status_spp(
        csrs.vsstatus,
    ) && csrs.vsip & csrs.vsie != 0)
}

/// Whether the waiting interrupt is forwarded to the guest now.
pub open spec fn spec_forwards(host_vmm: HostVmm, csrs: Csrs) -> bool {
    host_vmm.irq_pending && spec_guest_takes_interrupt(csrs)
}

/// Forwards the waiting interrupt to the guest, if one waits and the guest
/// takes interrupts: the guest's program counter and the cause of the trap
/// go to the guest's own trap registers, and the guest resumes at its trap
/// vector.
pub fn maybe_forward_interrupt(host_vmm: &mut HostVmm, ctx: &mut TrapContext, csrs: &mut Csrs)
    ensures
        *final(host_vmm) == *old(host_vmm),
        final(ctx).x == old(ctx).x,
        final(ctx).sstatus == old(ctx).sstatus,
        final(ctx).hgatp == old(ctx).hgatp,
        spec_forwards(*old(host_vmm), *old(csrs)) ==> {
            &&& final(ctx).sepc == old(csrs).vstvec
            &&& *final(csrs) == (Csrs {
                vsepc: old(ctx).sepc,
                vscause: old(csrs).scause,
                ..*old(csrs)
            })
        },
        !spec_forwards(*old(host_vmm), *old(csrs)) ==> {
            &&& final(ctx).sepc == old(ctx).sepc
            &&& *final(csrs) == *old(csrs)
        },
{
    if !host_vmm.irq_pending {
        return ;
    }
    let supervisor: bool = status_spp(csrs.vsstatus);
    let enabled: bool = status_sie(csrs.vsstatus);
    if (supervisor && enabled) || (!supervisor && (csrs.vsip & csrs.vsie) != 0) {
        csrs.vsepc = ctx.sepc;
        csrs.vscause = csrs.scause;
        ctx.sepc = csrs.vstvec;
    }
}

/// Offset, in the interrupt controller, of the claim register of the
/// context of the current guest.
pub open spec fn spec_claim_offset(host_vmm: HostVmm) -> int {
    PLIC_CLAIM_OFFSET + PLIC_CONTEXT_STRIDE * host_vmm.spec_context_id()
}

/// Address of the claim register, in the interrupt controller of the
/// machine, from which the interrupt for the current guest is read.
pub fn claim_address(host_vmm: &HostVmm) -> (addr: Option<u64>)
    ensures
        addr == match host_vmm.host_plic {
            Some(plic) => if plic.base_addr + spec_claim_offset(*host_vmm) <= u64::MAX {
                Some((plic.base_addr + spec_claim_offset(*host_vmm)) as u64)
            } else {
                None
            },
            None => None::<u64>,
        },
{
    match &host_vmm.host_plic {
        Some(plic) => {
            let gid: u128 = host_vmm.guest_id as u128;
            let addr: u128 = plic.base_addr as u128 + PLIC_CLAIM_OFFSET as u128
                + PLIC_CONTEXT_STRIDE as u128 * (2 * gid + 1);
            if addr <= u64::MAX as u128 {
                Some(addr as u64)
            } else {
                None
            }
        },
        None => None,
    }
}

/// Takes the external interrupt `irq`, which the interrupt controller of
/// the machine handed out for the context of the current guest: it is kept
/// as the claim of that context, and waits to be forwarded.
pub fn handle_irq(host_vmm: &mut HostVmm, ctx: &mut TrapContext, irq: u32)
    requires
        old(host_vmm).has_plic_context(),
    ensures
        *final(ctx) == *old(ctx),
        final(host_vmm).irq_pending,
        final(host_vmm).guest_id == old(host_vmm).guest_id,
        final(host_vmm).guests == old(host_vmm).guests,
        final(host_vmm).hpm == old(host_vmm).hpm,
        final(host_vmm).has_plic_context(),
        final(host_vmm).host_plic.unwrap().base_addr == old(host_vmm).host_plic.unwrap().base_addr,
        final(host_vmm).host_plic.unwrap().threshold@ == old(host_vmm).host_plic.unwrap().threshold@,
        final(host_vmm).host_plic.unwrap().claim_complete@ == old(host_vmm).host_plic.unwrap().claim_complete@.update(old(host_vmm).spec_context_id(), irq),
{
    let contexts: usize = match &host_vmm.host_plic {
        Some(plic) => plic.claim_complete.len(),
        None => 0,
    };
    assert(2 * host_vmm.guest_id + 1 < contexts);
    let context_id: usize = 2 * host_vmm.guest_id + 1;
    match &mut host_vmm.host_plic {
        Some(plic) => {
            plic.claim_complete[context_id] = irq;
        },
        None => {},
    }
    host_vmm.irq_pending = true;
}

/// What is done about an error that a handler reported.
#[derive(Copy, Clone, PartialEq, Eq, Debug, Structural)]
pub enum ErrorPolicy {
    /// The hypervisor stops.
    Halt,
}

/// What is done about the error `err`: for every error, the hypervisor
/// stops.
pub fn handle_internal_vmm_error(err: VmmError) -> (policy: ErrorPolicy)
    ensures
        policy == ErrorPolicy::Halt,
{
    ErrorPolicy::Halt
}

/// What the trap handler needs from the machine before it can decide.
#[derive(Copy, Clone, PartialEq, Eq, Debug, Structural)]
pub enum HardwareRequest {
    /// Nothing.
    Nothing,
    /// The answer of the machine firmware to this call.
    Firmware(FirmwareCall),
    /// The word read from the claim register at this address.
    PlicClaim { addr: u64 },
}

/// What the machine gave.  What was not asked for is not looked at.
#[derive(Copy, Clone, PartialEq, Eq, Debug, Structural)]
pub struct HardwareReply {
    /// The answer of the machine firmware.
    pub firmware: SbiRet,
    /// The interrupt that the interrupt controller handed out.
    pub irq: u32,
}

/// A trap that the hypervisor does not survive.
#[derive(Copy, Clone, PartialEq, Eq, Debug, Structural)]
pub enum FatalTrap {
    /// An environment call from user mode reached the hypervisor.
    UserEnvCall,
    /// The guest made a firmware call that the hypervisor does not know.
    UnsupportedSbi { ext_id: u64 },
    /// An access to a register by the guest was not rerouted.
    IllegalInstruction,
    /// The guest fetched an instruction from a page that is not mapped;
    /// `host_va` is where the instruction lies for the hypervisor, if both
    /// stages lead there.
    InstructionGuestPageFault { sepc: u64, hgatp: u64, host_va: Option<u64> },
    /// Any other cause.
    Other { scause: u64, sepc: u64 },
}

/// How a trap ends.
#[derive(Copy, Clone, PartialEq, Eq, Debug, Structural)]
pub enum TrapOutcome {
    /// The guest resumes, once `write`, if any, went to the interrupt
    /// controller of the machine.
    Resume { write: Option<PlicWrite> },
    /// A handler failed with this error.
    Failed(VmmError),
    /// The hypervisor cannot go on.
    Fatal(FatalTrap),
}

/// What the trap handler needs from the machine for the trap that `csrs`
/// and `ctx` describe: for an environment call of the guest that the
/// hypervisor knows, the call that the machine firmware is owed; for an
/// external interrupt, the claim register to read; else nothing.
pub open spec fn spec_trap_request(host_vmm: HostVmm, ctx: TrapContext, csrs: Csrs) -> HardwareRequest {
    match spec_trap_cause(csrs.scause) {
        TrapCause::VirtualSupervisorEnvCall => match spec_firmware_call(
            ctx.x@[A7 as int],
            ctx.x@[A6 as int],
            ctx.x@[A0 as int],
        ) {
            Some(call) => if call == FirmwareCall::Nothing {
                HardwareRequest::Nothing
            } else {
                HardwareRequest::Firmware(call)
            },
            None => HardwareRequest::Nothing,
        },
        TrapCause::SupervisorExternal => match host_vmm.host_plic {
            Some(plic) => if plic.base_addr + spec_claim_offset(host_vmm) <= u64::MAX {
                HardwareRequest::PlicClaim {
                    addr: (plic.base_addr + spec_claim_offset(host_vmm)) as u64,
                }
            } else {
                HardwareRequest::Nothing
            },
            None => HardwareRequest::Nothing,
        },
        _ => HardwareRequest::Nothing,
    }
}

/// What the trap handler needs from the machine for the trap that `csrs`
/// and `ctx` describe.
pub fn trap_request(host_vmm: &HostVmm, ctx: &TrapContext, csrs: &Csrs) -> (request:
    HardwareRequest)
    ensures
        request == spec_trap_request(*host_vmm, *ctx, *csrs),
{
    match trap_cause(csrs.scause) {
        TrapCause::VirtualSupervisorEnvCall => match sbi_firmware_call(ctx) {
            Some(FirmwareCall::Nothing) => HardwareRequest::Nothing,
            Some(call) => HardwareRequest::Firmware(call),
            None => HardwareRequest::Nothing,
        },
        TrapCause::SupervisorExternal => match claim_address(host_vmm) {
            Some(addr) => HardwareRequest::PlicClaim { addr },
            None => HardwareRequest::Nothing,
        },
        _ => HardwareRequest::Nothing,
    }
}

/// Handles the trap that `csrs` and `ctx` describe, with what the machine
/// gave in `reply`, and says how the trap ends.
///
/// An environment call of the guest is answered by the firmware interface,
/// and the guest's program counter moves past the call.  A guest-page fault
/// on a load or store goes to its handler.  An external interrupt is taken
/// and, where the guest takes interrupts, forwarded.  A virtual instruction
/// fails as not implemented.  Every other cause is fatal, and changes
/// nothing.
pub fn trap_handler(
    host_vmm: &mut HostVmm,
    ctx: &mut TrapContext,
    csrs: &mut Csrs,
    mem: &PhysMemory,
    reply: HardwareReply,
) -> (outcome: TrapOutcome)
    requires
        old(host_vmm).has_current_guest(),
        old(host_vmm).has_plic_context(),
        old(ctx).sepc <= u64::MAX - 4,
    ensures
        final(host_vmm).has_current_guest(),
        final(host_vmm).has_plic_context(),
        final(host_vmm).host_plic.unwrap().base_addr == old(host_vmm).host_plic.unwrap().base_addr,
        final(host_vmm).guest_id == old(host_vmm).guest_id,
        final(host_vmm).guests == old(host_vmm).guests,
        final(host_vmm).hpm == old(host_vmm).hpm,
        final(ctx).sstatus == old(ctx).sstatus,
        final(ctx).hgatp == old(ctx).hgatp,
        match spec_trap_cause(old(csrs).scause) {
            TrapCause::VirtualSupervisorEnvCall => {
                let ext_id = old(ctx).x@[A7 as int];
                let fid = old(ctx).x@[A6 as int];
                if spec_firmware_call(ext_id, fid, 0) is Some {
                    &&& outcome == (TrapOutcome::Resume { write: None })
                    &&& final(ctx).x@ == old(ctx).x@.update(
                        A0 as int,
                        spec_sbi_reply(ext_id, fid, reply.firmware).error,
                    ).update(A1 as int, spec_sbi_reply(ext_id, fid, reply.firmware).value)
                    &&& final(ctx).sepc == old(ctx).sepc + 4
                    &&& *final(csrs) == if spec_sets_timer(ext_id, fid) {
                        spec_timer_armed(*old(csrs))
                    } else {
                        *old(csrs)
                    }
                    &&& final(host_vmm).irq_pending == old(host_vmm).irq_pending
                } else {
                    &&& outcome == TrapOutcome::Fatal(FatalTrap::UnsupportedSbi { ext_id })
                    &&& *final(ctx) == *old(ctx)
                    &&& *final(csrs) == *old(csrs)
                    &&& *final(host_vmm) == *old(host_vmm)
                }
            },
            TrapCause::LoadGuestPageFault | TrapCause::StoreGuestPageFault => {
                &&& *final(csrs) == *old(csrs)
                &&& final(host_vmm).irq_pending == old(host_vmm).irq_pending
                &&& match spec_page_fault(*old(host_vmm), *old(ctx), *old(csrs), *mem) {
                    Ok((access, len)) => {
                        &&& outcome == (TrapOutcome::Resume { write: access.write })
                        &&& final(ctx).x@ == access.x
                        &&& final(ctx).sepc == old(ctx).sepc + len
                        &&& final(host_vmm).host_plic.unwrap().claim_complete@
                            == access.claim_complete
                        &&& final(host_vmm).host_plic.unwrap().threshold@ == access.threshold
                    },
                    Err(e) => {
                        &&& outcome == TrapOutcome::Failed(e)
                        &&& final(ctx).x@ == old(ctx).x@
                        &&& final(ctx).sepc == old(ctx).sepc
                        &&& final(host_vmm).host_plic.unwrap().claim_complete@ == old(host_vmm).host_plic.unwrap().claim_complete@
                        &&& final(host_vmm).host_plic.unwrap().threshold@ == old(host_vmm).host_plic.unwrap().threshold@
                    },
                }
            },
            TrapCause::SupervisorExternal => {
                &&& outcome == (TrapOutcome::Resume { write: None })
                &&& final(host_vmm).irq_pending
                &&& final(host_vmm).host_plic.unwrap().claim_complete@ == old(host_vmm).host_plic.unwrap().claim_complete@.update(
                    old(host_vmm).spec_context_id(),
                    reply.irq,
                )
                &&& final(host_vmm).host_plic.unwrap().threshold@ == old(host_vmm).host_plic.unwrap().threshold@
                &&& final(ctx).x == old(ctx).x
                &&& if spec_guest_takes_interrupt(*old(csrs)) {
                    &&& final(ctx).sepc == old(csrs).vstvec
                    &&& *final(csrs) == (Csrs {
                        vsepc: old(ctx).sepc,
                        vscause: old(csrs).scause,
                        ..*old(csrs)
                    })
                } else {
                    &&& final(ctx).sepc == old(ctx).sepc
                    &&& *final(csrs) == *old(csrs)
                }
            },
            TrapCause::VirtualInstruction => {
                &&& outcome == TrapOutcome::Failed(VmmError::Unimplemented)
                &&& *final(ctx) == *old(ctx)
                &&& *final(csrs) == *old(csrs)
                &&& *final(host_vmm) == *old(host_vmm)
            },
            TrapCause::UserEnvCall => {
                &&& outcome == TrapOutcome::Fatal(FatalTrap::UserEnvCall)
                &&& *final(ctx) == *old(ctx)
                &&& *final(csrs) == *old(csrs)
                &&& *final(host_vmm) == *old(host_vmm)
            },
            TrapCause::IllegalInstruction => {
                &&& outcome == TrapOutcome::Fatal(FatalTrap::IllegalInstruction)
                &&& *final(ctx) == *old(ctx)
                &&& *final(csrs) == *old(csrs)
                &&& *final(host_vmm) == *old(host_vmm)
            },
            TrapCause::InstructionGuestPageFault => {
                &&& outcome == TrapOutcome::Fatal(
                    FatalTrap::InstructionGuestPageFault {
                        sepc: old(ctx).sepc,
                        hgatp: old(csrs).hgatp,
                        host_va: spec_two_stage(
                            *mem,
                            old(host_vmm).guests@[old(host_vmm).guest_id as int].unwrap().gpm.areas@,
                            old(csrs).vsatp,
                            old(ctx).sepc,
                        ),
                    },
                )
                &&& *final(ctx) == *old(ctx)
                &&& *final(csrs) == *old(csrs)
                &&& *final(host_vmm) == *old(host_vmm)
            },
            TrapCause::Other => {
                &&& outcome == TrapOutcome::Fatal(
                    FatalTrap::Other { scause: old(csrs).scause, sepc: old(ctx).sepc },
                )
                &&& *final(ctx) == *old(ctx)
                &&& *final(csrs) == *old(csrs)
                &&& *final(host_vmm) == *old(host_vmm)
            },
        },
{
    match trap_cause(csrs.scause) {
        TrapCause::UserEnvCall => TrapOutcome::Fatal(FatalTrap::UserEnvCall),
        TrapCause::VirtualSupervisorEnvCall => {
            if sbi_firmware_call(ctx).is_none() {
                return TrapOutcome::Fatal(FatalTrap::UnsupportedSbi { ext_id: ctx.x[A7] });
            }
            let done: VmmResult = sbi_vs_handler(ctx, csrs, reply.firmware);
            ctx.sepc = ctx.sepc + 4;
            TrapOutcome::Resume { write: None }
        },
        TrapCause::VirtualInstruction => match privileged_inst_handler(ctx) {
            Err(e) => TrapOutcome::Failed(e),
            Ok(()) => TrapOutcome::Resume { write: None },
        },
        TrapCause::IllegalInstruction => TrapOutcome::Fatal(FatalTrap::IllegalInstruction),
        TrapCause::InstructionGuestPageFault => {
            let host_va: Option<u64> = match &host_vmm.guests[host_vmm.guest_id] {
                Some(guest) => two_stage_translation(
                    host_vmm.guest_id,
                    ctx.sepc,
                    csrs.vsatp,
                    &guest.gpm,
                    mem,
                ),
                None => None,
            };
            TrapOutcome::Fatal(
                FatalTrap::InstructionGuestPageFault {
                    sepc: ctx.sepc,
                    hgatp: csrs.hgatp,
                    host_va,
                },
            )
        },
        TrapCause::LoadGuestPageFault | TrapCause::StoreGuestPageFault => {
            match guest_page_fault_handler(host_vmm, ctx, csrs, mem) {
                Ok(write) => TrapOutcome::Resume { write },
                Err(e) => TrapOutcome::Failed(e),
            }
        },
        TrapCause::SupervisorExternal => {
            handle_irq(host_vmm, ctx, reply.irq);
            maybe_forward_interrupt(host_vmm, ctx, csrs);
            TrapOutcome::Resume { write: None }
        },
        TrapCause::Other => TrapOutcome::Fatal(
            FatalTrap::Other { scause: csrs.scause, sepc: ctx.sepc },
        ),
    }
}

/// The address, in the trampoline page, of the code that restores a guest,
/// where the trampoline code starts at `alltraps` and that code lies at
/// `restore`; and whether the guest-stage translations that the hart has
/// cached must be flushed before the guest resumes.
#[derive(Copy, Clone, PartialEq, Eq, Debug, Structural)]
pub struct ResumePlan {
    pub restore_va: u64,
    pub flush_guest_tlb: bool,
}

/// Prepares the way back into the guest: the trap vector is set for traps
/// out of a guest, and the root of the guest-stage table of the guest is
/// loaded unless it is loaded already.  A new root asks for a flush of the
/// cached guest-stage translations.
pub fn switch_to_guest(ctx: &TrapContext, csrs: &mut Csrs, alltraps: u64, restore: u64) -> (plan:
    ResumePlan)
    requires
        alltraps <= restore,
        restore - alltraps < 0x1000,
    ensures
        *final(csrs) == (Csrs { stvec: TRAMPOLINE, hgatp: ctx.hgatp, ..*old(csrs) }),
        plan.flush_guest_tlb == (old(csrs).hgatp != ctx.hgatp),
        plan.restore_va == restore - alltraps + TRAMPOLINE,
{
    set_user_trap_entry(csrs);
    let flush: bool = csrs.hgatp != ctx.hgatp;
    if flush {
        csrs.hgatp = ctx.hgatp;
    }
    ResumePlan { restore_va: restore - alltraps + TRAMPOLINE, flush_guest_tlb: flush }
}

/// A trap that the hypervisor itself took.  None is survived.
#[derive(Copy, Clone, PartialEq, Eq, Debug, Structural)]
pub enum KernelTrap {
    /// A fault on a load or a store; `sepc` is that of the saved context.
    MemoryFault { scause: u64, sepc: u64, stval: u64 },
    /// Any other cause; `sepc` is that of the hart.
    Other { scause: u64, sepc: u64, stval: u64 },
}

/// Exception code: fault on a load.
pub const EXC_LOAD_FAULT: u64 = 5;

/// Exception code: fault on a store.
pub const EXC_STORE_FAULT: u64 = 7;

/// Exception code: page fault on a load.
pub const EXC_LOAD_PAGE_FAULT: u64 = 13;

/// Tells what trap the hypervisor itself took, from the saved context, the
/// registers and the program counter `sepc` of the hart.
pub fn trap_from_kernel(trap_cx: &TrapContext, csrs: &Csrs, sepc: u64) -> (trap: KernelTrap)
    ensures
        trap == if !spec_is_interrupt(csrs.scause) && (spec_cause_code(csrs.scause)
            == EXC_STORE_FAULT || spec_cause_code(csrs.scause) == EXC_LOAD_FAULT
            || spec_cause_code(csrs.scause) == EXC_LOAD_PAGE_FAULT) {
            KernelTrap::MemoryFault { scause: csrs.scause, sepc: trap_cx.sepc, stval: csrs.stval }
        } else {
            KernelTrap::Other { scause: csrs.scause, sepc, stval: csrs.stval }
        },
{
    let (interrupt, code) = scause_cause(csrs.scause);
    if !interrupt && (code == EXC_STORE_FAULT || code == EXC_LOAD_FAULT || code
        == EXC_LOAD_PAGE_FAULT) {
        KernelTrap::MemoryFault { scause: csrs.scause, sepc: trap_cx.sepc, stval: csrs.stval }
    } else {
        KernelTrap::Other { scause: csrs.scause, sepc, stval: csrs.stval }
    }
}

} // verus!

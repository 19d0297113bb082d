//! The control and status registers that the trap path reads and writes, as
//! plain values, and the fields of them that decide what happens.

use riscv::interrupt::Trap;
use riscv::register::scause::Scause;
use riscv::register::sstatus::{Sstatus, SPP};
use vstd::prelude::*;

verus! {

/// Bit of `hvip` that holds a pending timer interrupt for the guest.
pub const HVIP_VSTIP: u64 = 0x40;

/// Bit of `sie` that enables the supervisor timer interrupt.
pub const SIE_STIMER: u64 = 0x20;

/// Bit of a status register that enables supervisor interrupts.
pub const STATUS_SIE: u64 = 0x2;

/// Bit of a status register that holds the previous privilege mode.
pub const STATUS_SPP: u64 = 0x100;

/// Bit of a cause register that tells an interrupt from an exception.
pub const CAUSE_INTERRUPT: u64 = 0x8000_0000_0000_0000;

/// The registers of one hart as they stand while a trap is handled.  The
/// guest does not run meanwhile, so what is read here is what the hardware
/// holds, and what is written here is what it holds when the guest resumes.
#[derive(Copy, Clone, PartialEq, Eq, Debug, Structural)]
pub struct Csrs {
    pub satp: u64,
    pub scause: u64,
    pub stval: u64,
    pub stvec: u64,
    pub sie: u64,
    pub hgatp: u64,
    pub hvip: u64,
    pub htval: u64,
    pub htinst: u64,
    pub vsatp: u64,
    pub vsstatus: u64,
    pub vsip: u64,
    pub vsie: u64,
    pub vstvec: u64,
    pub vsepc: u64,
    pub vscause: u64,
}

/// Whether the cause `bits` is an interrupt.
pub open spec fn spec_is_interrupt(bits: u64) -> bool {
    bits & CAUSE_INTERRUPT != 0
}

/// The code of the cause `bits`: all but its highest bit.
pub open spec fn spec_cause_code(bits: u64) -> u64 {
    bits & 0x7fff_ffff_ffff_ffff
}

/// Whether the status `bits` has supervisor interrupts enabled.
pub open spec fn spec_status_sie(bits: u64) -> bool {
    bits & STATUS_SIE != 0
}

/// Whether the status `bits` records supervisor mode as the previous mode.
pub open spec fn spec_status_spp(bits: u64) -> bool {
    bits & STATUS_SPP != 0
}

/// Splits a cause register into its kind and its code.
///
/// Calls `riscv::register::scause::Scause::from_bits` and `Scause::cause`.
/// The contract claims of them that the kind is the highest of the 64 bits
/// and the code the other 63, which is how the crate declares the two fields
/// of the register on a 64-bit machine.
#[verifier::external_body]
pub(crate) fn scause_cause(bits: u64) -> (r: (bool, u64))
    ensures
        r.0 == spec_is_interrupt(bits),
        r.1 == spec_cause_code(bits),
{
    match Scause::from_bits(bits as usize).cause() {
        Trap::Interrupt(code) => (true, code as u64),
        Trap::Exception(code) => (false, code as u64),
    }
}

/// Whether a status register records supervisor mode as the previous mode.
///
/// Calls `riscv::register::sstatus::Sstatus::from_bits` and `Sstatus::spp`.
/// The contract claims of them that the field is bit 8 of the register.  The
/// guest's status register has the layout of the supervisor's.
#[verifier::external_body]
pub(crate) fn status_spp(bits: u64) -> (supervisor: bool)
    ensures
        supervisor == spec_status_spp(bits),
{
    match Sstatus::from_bits(bits as usize).spp() {
        SPP::Supervisor => true,
        SPP::User => false,
    }
}

/// Whether a status register has supervisor interrupts enabled.
///
/// Calls `riscv::register::sstatus::Sstatus::from_bits` and `Sstatus::sie`.
/// The contract claims of them that the field is bit 1 of the register.
#[verifier::external_body]
pub(crate) fn status_sie(bits: u64) -> (enabled: bool)
    ensures
        enabled == spec_status_sie(bits),
{
    Sstatus::from_bits(bits as usize).sie()
}

} // verus!

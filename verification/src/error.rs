//! What can go wrong while a trap of a guest is handled.

use vstd::prelude::*;

verus! {

/// Why a trap could not be handled.
#[derive(Copy, Clone, PartialEq, Eq, Debug, Structural)]
pub enum VmmError {
    /// The guest used a call or an instruction that is not supported.
    Unimplemented,
    /// The instruction at the guest's program counter could not be decoded.
    DecodeInstError,
    /// The two-stage walk for a guest address failed.
    TranslationError,
    /// The trap reports a fault during the guest's own page-table walk.
    PseudoInst,
    /// The guest touched an address at which no device is emulated.
    DeviceNotFound,
}

/// Result of a trap handler.
pub type VmmResult = Result<(), VmmError>;

} // verus!

//! The state of a guest hart that is saved when it traps.

use vstd::prelude::*;

verus! {

/// Index of register `a0`: first argument and error of a firmware call.
pub const A0: usize = 10;

/// Index of register `a1`: second argument and value of a firmware call.
pub const A1: usize = 11;

/// Index of register `a6`: function of a firmware call.
pub const A6: usize = 16;

/// Index of register `a7`: extension of a firmware call.
pub const A7: usize = 17;

/// What a guest hart holds when it leaves the guest, and what it gets back
/// when it resumes.
#[derive(Copy, Clone, Debug)]
pub struct TrapContext {
    /// The 32 integer registers.
    pub x: [u64; 32],
    /// The status register of the guest hart.
    pub sstatus: u64,
    /// The program counter of the guest.
    pub sepc: u64,
    /// The root token of the guest-stage page table of the guest.
    pub hgatp: u64,
}

impl TrapContext {
    /// A context with all registers zero that resumes at `entry` under the
    /// guest-stage table `hgatp`.
    pub fn new(entry: u64, hgatp: u64) -> (ctx: Self)
        ensures
            ctx.sepc == entry,
            ctx.hgatp == hgatp,
            ctx.sstatus == 0,
            forall|i: int| 0 <= i < 32 ==> ctx.x@[i] == 0,
    {
        TrapContext { x: [0u64;32], sstatus: 0, sepc: entry, hgatp }
    }
}

} // verus!

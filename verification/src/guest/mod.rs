//! What the hypervisor does for a guest: its firmware calls and the
//! translation of its addresses.

pub mod pmap;
pub mod sbi;

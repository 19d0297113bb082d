//! Core of a RISC-V type-1 hypervisor: address-space construction for host and
//! guest, two-stage address translation, the SBI firmware offered to guests and
//! the trap engine that ties them together.
//!
//! Everything here is a function on plain values.  Hardware registers, the
//! machine firmware and physical memory are handed in as values and handed
//! back as values, so that every decision can be stated in a contract and
//! proved.

pub mod address;
pub mod constants;
pub mod csr;
pub mod device_emu;
pub mod elf;
pub mod error;
pub mod frame;
pub mod guest;
pub mod hypervisor;
pub mod machine;
pub mod memory;
pub mod mm;
pub mod page_table;
pub mod trap;

//! Devices that the hypervisor emulates for its guests.

pub mod plic;

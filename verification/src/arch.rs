//! The machine: its timer and the devices on its bus.

pub mod pci;
pub mod pit;

//! The arithmetic of the device drivers.

pub mod rtl8139;

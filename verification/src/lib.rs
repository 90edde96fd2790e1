//! Core logic of a small x86_64 unikernel: the packet model, the TCP/IP
//! handlers, the bookkeeping behind the cooperative executor and its
//! synchronisation primitives, and the arithmetic of the timer and NIC.
//!
//! Everything here works on plain values; hardware access and futures live
//! with the caller.

pub mod arch;
pub mod driver;
pub mod net;
pub mod qemu;
pub mod runtime;
pub mod sync;

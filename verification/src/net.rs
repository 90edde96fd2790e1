//! The network stack: packet views and the per-layer handlers.

pub mod wire;
pub mod tcp;
pub mod table;
pub mod arp;
pub mod socks;
pub mod icmp;
pub mod ip;
pub mod ethernet;
pub mod device;

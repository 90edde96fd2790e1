//! A network device as the stack sees it: its addresses, and what becomes of
//! the frames that reach it from either side.

use vstd::prelude::*;
use crate::net::arp::Arp;
use crate::net::ethernet::{eth_handled, Ethernet, StackView};
use crate::net::ip::IpLayer;
use crate::net::socks::Ports;
use crate::net::tcp::{Accepted, TcpLayer};
use crate::net::wire::eth2::Ether2Frame;
use crate::net::wire::ipaddr::{raw_of, Ipv4Addr};
use crate::net::wire::mac::{key_of, Mac};
use crate::net::wire::Packet;

verus! {

/// A network device: its hardware address, its IP address, and the number
/// of the queue on which frames for it are handed over.
pub struct NetworkDevice {
    ip: Ipv4Addr,
    tx_queue: u64,
    device_mac: Mac,
}

impl NetworkDevice {
    /// The device's IP address.
    pub closed spec fn ip(&self) -> Seq<u8> {
        self.ip@
    }

    /// The device's hardware address.
    pub closed spec fn mac(&self) -> Seq<u8> {
        self.device_mac@
    }

    /// The number of the device's queue.
    pub closed spec fn queue(&self) -> u64 {
        self.tx_queue
    }

    /// A device with the loopback address, registered with the Ethernet
    /// layer under its hardware address.
    pub fn new(device_mac: Mac, tx_queue: u64, ethernet: &mut Ethernet) -> (r: Self)
        ensures
            r.mac() == device_mac@,
            r.queue() == tx_queue,
            r.ip() == seq![127u8, 0u8, 0u8, 1u8],
            final(ethernet)@ == old(ethernet)@.insert(key_of(device_mac@) as u128, tx_queue),
    {
        ethernet.register_tx(device_mac, tx_queue);
        NetworkDevice { ip: Ipv4Addr::new(127, 0, 0, 1), tx_queue, device_mac }
    }

    /// Gives the device the address `ip` and binds it in the ARP layer.
    pub fn set_ip(&mut self, ip: Ipv4Addr, arp: &mut Arp)
        requires
            old(arp).wf(),
        ensures
            final(arp).wf(),
            final(arp).remote() == old(arp).remote(),
            final(arp).local() == old(arp).local().insert(
                raw_of(ip@) as u128,
                key_of(old(self).mac()),
            ),
            final(self).ip() == ip@,
            final(self).mac() == old(self).mac(),
            final(self).queue() == old(self).queue(),
    {
        arp.register_local(ip, self.device_mac);
        self.ip = ip;
    }

    /// The number of the queue on which frames for the device are handed
    /// over.
    pub fn get_sender(&self) -> (r: u64)
        ensures
            r == self.queue(),
    {
        self.tx_queue
    }

    /// The device's hardware address.
    pub fn device_mac(&self) -> (r: Mac)
        ensures
            r@ == self.mac(),
    {
        self.device_mac
    }

    /// Treats a frame that the card received, and returns the bytes to send
    /// back, if any, and the stream to hand to a listener, if one was
    /// accepted. A buffer too short for a frame is dropped.
    pub fn on_received(
        &self,
        frame: Vec<u8>,
        ethernet: &Ethernet,
        arp: &mut Arp,
        ip: &mut IpLayer,
        tcp_layer: &mut TcpLayer,
        ports: &Ports,
    ) -> (r: (Option<Vec<u8>>, Option<Accepted>))
        requires
            old(arp).wf(),
            old(tcp_layer).wf(),
        ensures
            final(arp).wf(),
            final(tcp_layer).wf(),
            final(arp).local() == old(arp).local(),
            frame@.len() < 14 ==> r.0 is None && r.1 is None && final(ip).next_id() == old(
                ip,
            ).next_id() && final(tcp_layer)@ == old(tcp_layer)@ && final(arp).remote() == old(
                arp,
            ).remote(),
            frame@.len() >= 14 ==> eth_handled(
                StackView {
                    next_id: old(ip).next_id(),
                    conns: old(tcp_layer)@,
                    remote: old(arp).remote(),
                },
                StackView {
                    next_id: final(ip).next_id(),
                    conns: final(tcp_layer)@,
                    remote: final(arp).remote(),
                },
                match r.0 {
                    Some(f) => Some(f@),
                    None => None,
                },
                r.1,
                frame@,
                self.mac(),
                old(arp).local(),
                ports@,
            ),
    {
        let parsed = match Ether2Frame::from_bytes(frame) {
            Ok(f) => f,
            Err(_) => {
                return (None, None);
            },
        };
        let (reply, accepted) = ethernet.handle_rx(
            parsed,
            self.device_mac,
            arp,
            ip,
            tcp_layer,
            ports,
        );
        match reply {
            Some(packet) => (Some(packet.into_bytes()), accepted),
            None => (None, accepted),
        }
    }

    /// The bytes to send for a frame that was queued for the device.
    pub fn on_queued(&self, frame: Ether2Frame) -> (r: Vec<u8>)
        ensures
            r@ == frame@,
    {
        frame.into_bytes()
    }
}

} // verus!

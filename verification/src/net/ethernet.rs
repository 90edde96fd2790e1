//! The Ethernet layer: ingress dispatch by type, and the choice of the
//! device that a frame leaves on.

use vstd::prelude::*;
use crate::net::arp::{arp_handled, Arp};
use crate::net::ip::{eth_frame, ip_handled, IpLayer};
use crate::net::socks::Ports;
use crate::net::table::{no_entries, table_entries, table_get, table_insert, table_new, KeyTable};
use crate::net::tcp::{Accepted, ConnView, TcpLayer};
use crate::net::wire::arp::ArpPacket;
use crate::net::wire::eth2::{Ether2Frame, EtherType};
use crate::net::wire::ipv4::Ipv4;
use crate::net::wire::mac::{key_of, Mac};
use crate::net::wire::get16;
use crate::net::wire::Packet;

verus! {

/// The payload of Ethernet frame `f`.
pub open spec fn eth_payload(f: Seq<u8>) -> Seq<u8> {
    f.subrange(14, f.len() as int)
}

/// The state that a frame can change: the identification of the next IPv4
/// packet, the connections, and the peers.
pub struct StackView {
    pub next_id: u16,
    pub conns: Map<u128, ConnView>,
    pub remote: Map<u128, u64>,
}

/// How the state `after` and the results follow from the state `before` when
/// frame `f` arrives at the device with address `device_mac`.
///
/// The payload of an IPv4 frame goes to the IPv4 layer, that of an ARP frame
/// to the ARP layer; a payload too short for its type, and any other type,
/// is dropped. An answer goes back to the
/// frame's source with the type it came with.
pub open spec fn eth_handled(
    before: StackView,
    after: StackView,
    reply: Option<Seq<u8>>,
    accepted: Option<Accepted>,
    f: Seq<u8>,
    device_mac: Seq<u8>,
    local: Map<u128, u64>,
    ports: Map<u128, u64>,
) -> bool {
    if get16(f, 12) == 0x0800 && eth_payload(f).len() >= 20 {
        &&& after.remote == before.remote
        &&& ip_handled(
            before.next_id,
            after.next_id,
            before.conns,
            after.conns,
            match reply {
                Some(r) => Some(eth_payload(r)),
                None => None,
            },
            accepted,
            eth_payload(f),
            local,
            before.remote,
            ports,
        )
        &&& reply is Some ==> reply->Some_0 == eth_frame(
            f.subrange(6, 12),
            device_mac,
            0x0800,
            eth_payload(reply->Some_0),
        )
    } else if get16(f, 12) == 0x0806 && eth_payload(f).len() >= 28 {
        &&& after.next_id == before.next_id
        &&& after.conns == before.conns
        &&& accepted is None
        &&& arp_handled(
            local,
            before.remote,
            after.remote,
            match reply {
                Some(r) => Some(eth_payload(r)),
                None => None,
            },
            eth_payload(f),
        )
        &&& reply is Some ==> reply->Some_0 == eth_frame(
            f.subrange(6, 12),
            device_mac,
            0x0806,
            eth_payload(reply->Some_0),
        )
    } else {
        after == before && reply is None && accepted is None
    }
}

/// The Ethernet layer: for each device's hardware address, the number of the
/// queue that its frames are sent on.
pub struct Ethernet {
    tx_queue_map: KeyTable,
}

impl Ethernet {
    /// The devices: from a hardware address to the number of its queue.
    pub closed spec fn view(&self) -> Map<u128, u64> {
        table_entries(self.tx_queue_map)
    }

    /// A layer without devices.
    pub fn new() -> (r: Self)
        ensures
            r@ == no_entries(),
    {
        Ethernet { tx_queue_map: table_new() }
    }

    /// Registers the queue `tx_queue` for the device with address
    /// `device_mac`.
    pub fn register_tx(&mut self, device_mac: Mac, tx_queue: u64)
        ensures
            final(self)@ == old(self)@.insert(device_mac.spec_key() as u128, tx_queue),
    {
        table_insert(&mut self.tx_queue_map, device_mac.key() as u128, tx_queue);
    }

    /// Treats a frame that arrived at the device with address `device_mac`,
    /// and returns the frame to send back, if any, and the stream to hand to
    /// a listener, if one was accepted.
    pub fn handle_rx(
        &self,
        ctx: Ether2Frame,
        device_mac: Mac,
        arp: &mut Arp,
        ip: &mut IpLayer,
        tcp_layer: &mut TcpLayer,
        ports: &Ports,
    ) -> (r: (Option<Ether2Frame>, Option<Accepted>))
        requires
            ctx.wf(),
            old(arp).wf(),
            old(tcp_layer).wf(),
        ensures
            final(arp).wf(),
            final(tcp_layer).wf(),
            final(arp).local() == old(arp).local(),
            eth_handled(
                StackView {
                    next_id: old(ip).next_id(),
                    conns: old(tcp_layer)@,
                    remote: old(arp).remote(),
                },
                StackView {
                    next_id: final(ip).next_id(),
                    conns: final(tcp_layer)@,
                    remote: final(arp).remote(),
                },
                match r.0 {
                    Some(f) => Some(f@),
                    None => None,
                },
                r.1,
                ctx@,
                device_mac@,
                old(arp).local(),
                ports@,
            ),
    {
        let (data, frame_type, accepted) = match ctx.dtype() {
            EtherType::IPv4 => {
                let pkt = match Ipv4::from_bytes(vstd::slice::slice_to_vec(ctx.data())) {
                    Ok(p) => p,
                    Err(_) => {
                        return (None, None);
                    },
                };
                let (out, accepted) = ip.handle_packet(pkt, arp, tcp_layer, ports);
                match out {
                    Some(reply) => (reply.into_bytes(), EtherType::IPv4, accepted),
                    None => {
                        return (None, accepted);
                    },
                }
            },
            EtherType::ARP => {
                let pkt = match ArpPacket::from_bytes(vstd::slice::slice_to_vec(ctx.data())) {
                    Ok(p) => p,
                    Err(_) => {
                        return (None, None);
                    },
                };
                match arp.handle_packet(pkt, &ctx) {
                    Some(reply) => (reply.into_bytes(), EtherType::ARP, None),
                    None => {
                        return (None, None);
                    },
                }
            },
            _ => {
                return (None, None);
            },
        };
        proof {
            device_mac.lemma_len();
        }
        let mut reply = Ether2Frame::zeroed();
        reply.set_dst(ctx.src());
        reply.set_src(device_mac);
        reply.set_dtype(frame_type);
        reply.set_data(data.as_slice());
        proof {
            assert(eth_payload(reply@) =~= data@);
            assert(reply@ =~= eth_frame(
                ctx@.subrange(6, 12),
                device_mac@,
                frame_type.spec_raw(),
                data@,
            ));
        }
        (Some(reply), accepted)
    }

    /// The queue of the device that `packet` leaves on: the one registered
    /// for the frame's destination address, if there is one.
    pub fn handle_tx(&self, packet: &Ether2Frame) -> (r: Option<u64>)
        requires
            packet.wf(),
        ensures
            r == if self@.dom().contains(key_of(packet@.subrange(0, 6)) as u128) {
                Some(self@[key_of(packet@.subrange(0, 6)) as u128])
            } else {
                None
            },
    {
        table_get(&self.tx_queue_map, packet.dst().key() as u128)
    }
}

} // verus!

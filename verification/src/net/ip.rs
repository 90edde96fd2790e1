//! The IPv4 layer: ingress dispatch and egress framing.

use vstd::prelude::*;
use crate::net::arp::Arp;
use crate::net::icmp::{echo_reply, is_echo, IcmpLayer};
use crate::net::socks::Ports;
use crate::net::tcp::{layer_handled, Accepted, ConnView, TcpLayer};
use crate::net::wire::eth2::{Ether2Frame, EtherType};
use crate::net::wire::icmp::Icmp;
use crate::net::wire::ipaddr::{raw_of, Ipv4Addr};
use crate::net::wire::ipv4::{blank_header, with_checksum, Ipv4, Ipv4Proto};
use crate::net::wire::mac::Mac;
use crate::net::wire::tcp::Tcp;
use crate::net::wire::{get16, put16, put_bytes};
use crate::net::wire::Packet;

verus! {

/// The IPv4 packet that carries `payload` from `sip` to `dip` as protocol
/// `proto` under identification `id`: the don't-fragment flag, a time to live
/// of 64, the total length, and the header checksum.
pub open spec fn ip_packet(proto: u8, sip: Seq<u8>, dip: Seq<u8>, id: u16, payload: Seq<u8>) -> Seq<
    u8,
> {
    with_checksum(
        put16(
            put16(put_bytes(put_bytes(blank_header().update(9, proto), 12, sip), 16, dip), 4, id),
            2,
            ((20 + payload.len()) % 0x1_0000) as u16,
        ) + payload,
    )
}

/// The Ethernet frame that carries `payload` from `src` to `dst` with type
/// `dtype`.
pub open spec fn eth_frame(dst: Seq<u8>, src: Seq<u8>, dtype: u16, payload: Seq<u8>) -> Seq<u8> {
    put16(put_bytes(put_bytes(Seq::new(14, |i: int| 0u8), 0, dst), 6, src), 12, dtype) + payload
}

/// The payload of IPv4 packet `p`.
pub open spec fn ip_payload(p: Seq<u8>) -> Seq<u8> {
    p.subrange(20, p.len() as int)
}

/// Whether packet `p` reaches the TCP layer: it is for a local address and
/// carries a whole TCP header.
pub open spec fn reaches_tcp(p: Seq<u8>, local: Map<u128, u64>) -> bool {
    local.dom().contains(raw_of(p.subrange(16, 20)) as u128) && p[9] == 6 && ip_payload(p).len()
        >= 20
}

/// The IPv4 layer: the identification of the next packet it sends.
pub struct IpLayer {
    last_ipv4_id: u16,
}

impl IpLayer {
    /// The identification that the next packet gets.
    pub closed spec fn next_id(&self) -> u16 {
        self.last_ipv4_id
    }

    /// A layer whose first packet gets identification zero.
    pub fn new() -> (r: Self)
        ensures
            r.next_id() == 0,
    {
        IpLayer { last_ipv4_id: 0 }
    }

    /// Builds the packet that carries `payload`.
    fn packet(proto: Ipv4Proto, sip: Ipv4Addr, dip: Ipv4Addr, id: u16, payload: &[u8]) -> (r: Ipv4)
        ensures
            r@ == ip_packet(proto.spec_raw(), sip@, dip@, id, payload@),
    {
        proof {
            sip.lemma_len();
            dip.lemma_len();
        }
        let mut reply = Ipv4::zeroed();
        reply.set_proto(proto);
        reply.set_sip(sip);
        reply.set_dip(dip);
        reply.set_id(id);
        reply.set_flags(0x40);
        reply.set_data(payload);
        reply.set_len();
        proof {
            assert(0x40u8 | 0x40u8 == 0x40u8) by (bit_vector);
            assert(reply@ =~= put16(
                put16(
                    put_bytes(
                        put_bytes(blank_header().update(9, proto.spec_raw()), 12, sip@),
                        16,
                        dip@,
                    ),
                    4,
                    id,
                ),
                2,
                ((20 + payload@.len()) % 0x1_0000) as u16,
            ) + payload@);
        }
        reply.set_checksum();
        reply
    }

    /// Takes the next identification.
    fn take_id(&mut self) -> (id: u16)
        ensures
            id == old(self).next_id(),
            final(self).next_id() == old(self).next_id().wrapping_add(1),
    {
        let id: u16 = self.last_ipv4_id;
        self.last_ipv4_id = id.wrapping_add(1);
        id
    }

    /// Treats a packet that arrived: one for an address that is not local is
    /// dropped, an echo is answered, a segment goes to the TCP layer, and
    /// anything else is dropped. The reply goes back to the sender under the
    /// layer's next identification.
    pub fn handle_packet(
        &mut self,
        packet: Ipv4,
        arp: &Arp,
        tcp_layer: &mut TcpLayer,
        ports: &Ports,
    ) -> (r: (Option<Ipv4>, Option<Accepted>))
        requires
            packet.wf(),
            arp.wf(),
            old(tcp_layer).wf(),
        ensures
            final(tcp_layer).wf(),
            ip_handled(
                old(self).next_id(),
                final(self).next_id(),
                old(tcp_layer)@,
                final(tcp_layer)@,
                match r.0 {
                    Some(p) => Some(p@),
                    None => None,
                },
                r.1,
                packet@,
                arp.local(),
                arp.remote(),
                ports@,
            ),
    {
        if arp.resolve_ip_local(packet.dip()).is_none() {
            return (None, None);
        }
        let (data, packet_type, accepted) = match packet.proto() {
            Ipv4Proto::ICMP => {
                match Self::echo(&packet) {
                    Some(d) => (d, Ipv4Proto::ICMP, None),
                    None => {
                        return (None, None);
                    },
                }
            },
            Ipv4Proto::TCP => {
                let pkt = match Tcp::from_bytes(vstd::slice::slice_to_vec(packet.data())) {
                    Ok(p) => p,
                    Err(_) => {
                        return (None, None);
                    },
                };
                let (out, accepted) = tcp_layer.handle_packet(pkt, &packet, arp, ports);
                match out {
                    Some(seg) => (seg.into_bytes(), Ipv4Proto::TCP, accepted),
                    None => {
                        return (None, accepted);
                    },
                }
            },
            _ => {
                return (None, None);
            },
        };
        let id = self.take_id();
        let reply = Self::packet(packet_type, packet.dip(), packet.sip(), id, data.as_slice());
        proof {
            lemma_ip_packet_payload(
                packet_type.spec_raw(),
                packet@.subrange(16, 20),
                packet@.subrange(12, 16),
                id,
                data@,
            );
        }
        (Some(reply), accepted)
    }

    /// The payload of the reply to the echo that `packet` carries, if it
    /// carries one.
    fn echo(packet: &Ipv4) -> (r: Option<Vec<u8>>)
        requires
            packet.wf(),
        ensures
            r is Some <==> ip_payload(packet@).len() >= 8 && is_echo(ip_payload(packet@)),
            r is Some ==> r->Some_0@ == echo_reply(ip_payload(packet@)),
    {
        let pkt = match Icmp::from_bytes(vstd::slice::slice_to_vec(packet.data())) {
            Ok(p) => p,
            Err(_) => {
                return None;
            },
        };
        match IcmpLayer::new().handle_packet(pkt, packet) {
            Some(reply) => Some(reply.into_bytes()),
            None => None,
        }
    }

    /// Frames `packet` for sending from `sip` to `dip` as protocol `proto`.
    ///
    /// The packet takes the layer's next identification. Where no hardware
    /// address is known for `dip`, or `sip` is not a local address, nothing
    /// is sent.
    pub fn handle_tx(
        &mut self,
        packet: &[u8],
        proto: Ipv4Proto,
        dip: Ipv4Addr,
        sip: Ipv4Addr,
        arp: &Arp,
    ) -> (r: Option<Ether2Frame>)
        requires
            arp.wf(),
        ensures
            final(self).next_id() == old(self).next_id().wrapping_add(1),
            egress_framed(
                match r {
                    Some(f) => Some(f@),
                    None => None,
                },
                packet@,
                proto.spec_raw(),
                dip@,
                sip@,
                old(self).next_id(),
                arp.local(),
                arp.remote(),
            ),
    {
        let id = self.take_id();
        let ipv4 = Self::packet(proto, sip, dip, id, packet);
        let dst_mac = match arp.cached(dip) {
            Some(x) => x,
            None => {
                return None;
            },
        };
        assert(arp.remote().dom().contains(dst_mac.spec_key() as u128));
        let src_mac = match arp.resolve_ip_local(sip) {
            Some(x) => x,
            None => {
                return None;
            },
        };
        proof {
            dst_mac.lemma_len();
            src_mac.lemma_len();
        }
        let mut ether = Ether2Frame::zeroed();
        ether.set_dst(dst_mac);
        ether.set_src(src_mac);
        ether.set_dtype(EtherType::IPv4);
        ether.set_data(ipv4.as_bytes());
        assert(ether@ =~= eth_frame(
            dst_mac@,
            src_mac@,
            0x0800,
            ip_packet(proto.spec_raw(), sip@, dip@, old(self).next_id(), packet@),
        ));
        Some(ether)
    }
}

/// How the frame `frame` that egress hands on follows from the payload
/// `packet`, sent as protocol `proto` from `sip` to `dip` under
/// identification `id`.
///
/// A frame is made exactly where `sip` is a local address and a hardware
/// address is known for `dip`. It goes from the device bound to `sip` to some
/// hardware address known for `dip`, and carries the IPv4 packet.
pub open spec fn egress_framed(
    frame: Option<Seq<u8>>,
    packet: Seq<u8>,
    proto: u8,
    dip: Seq<u8>,
    sip: Seq<u8>,
    id: u16,
    local: Map<u128, u64>,
    remote: Map<u128, u64>,
) -> bool {
    &&& frame is Some <==> local.dom().contains(raw_of(sip) as u128) && exists|m: u128| #[trigger]
        remote.dom().contains(m) && remote[m] == sip_key(dip)
    &&& frame is Some ==> exists|d: Mac, s: Mac|
        {
            &&& remote.contains_pair(d.spec_key() as u128, raw_of(dip) as u64)
            &&& s.spec_key() == local[raw_of(sip) as u128]
            &&& frame->Some_0 == #[trigger] eth_frame(
                d@,
                s@,
                0x0800,
                ip_packet(proto, sip, dip, id, packet),
            )
        }
}

/// An address as the value under which the table of peers holds it.
pub open spec fn sip_key(ip: Seq<u8>) -> u64 {
    raw_of(ip) as u64
}

/// How the results of `IpLayer::handle_packet` follow from packet `p`.
///
/// A packet for an address that is not local is dropped. An echo is answered
/// by its reply. A segment changes the connections as the TCP layer says, and
/// that layer's answer is the payload of the reply. Nothing else is answered.
/// A reply takes the next identification.
pub open spec fn ip_handled(
    id_before: u16,
    id_after: u16,
    before: Map<u128, ConnView>,
    after: Map<u128, ConnView>,
    reply: Option<Seq<u8>>,
    accepted: Option<Accepted>,
    p: Seq<u8>,
    local: Map<u128, u64>,
    remote: Map<u128, u64>,
    ports: Map<u128, u64>,
) -> bool {
    if reaches_tcp(p, local) {
        &&& layer_handled(
            before,
            after,
            match reply {
                Some(r) => Some(ip_payload(r)),
                None => None,
            },
            accepted,
            ip_payload(p),
            p,
            local,
            remote,
            ports,
        )
        &&& match reply {
            Some(r) => id_after == id_before.wrapping_add(1) && r == ip_packet(
                6,
                p.subrange(16, 20),
                p.subrange(12, 16),
                id_before,
                ip_payload(r),
            ),
            None => id_after == id_before,
        }
    } else {
        &&& after == before
        &&& accepted is None
        &&& if local.dom().contains(raw_of(p.subrange(16, 20)) as u128) && p[9] == 1 && ip_payload(
            p,
        ).len() >= 8 && is_echo(ip_payload(p)) {
            &&& id_after == id_before.wrapping_add(1)
            &&& reply == Some(
                ip_packet(
                    1,
                    p.subrange(16, 20),
                    p.subrange(12, 16),
                    id_before,
                    echo_reply(ip_payload(p)),
                ),
            )
        } else {
            reply is None && id_after == id_before
        }
    }
}

/// The payload of a packet made by `ip_packet` is the payload it was made
/// with.
pub proof fn lemma_ip_packet_payload(
    proto: u8,
    sip: Seq<u8>,
    dip: Seq<u8>,
    id: u16,
    payload: Seq<u8>,
)
    requires
        sip.len() == 4,
        dip.len() == 4,
    ensures
        ip_payload(ip_packet(proto, sip, dip, id, payload)) == payload,
        ip_packet(proto, sip, dip, id, payload).len() == 20 + payload.len(),
{
    assert(ip_payload(ip_packet(proto, sip, dip, id, payload)) =~= payload);
}

/// What is read from a packet made by `ip_packet`: version four, a header
/// of five words, the don't-fragment flag, a time to live of 64, and the
/// protocol, addresses, identification and length it was made with.
pub proof fn lemma_ip_packet_fields(
    proto: u8,
    sip: Seq<u8>,
    dip: Seq<u8>,
    id: u16,
    payload: Seq<u8>,
)
    requires
        sip.len() == 4,
        dip.len() == 4,
    ensures
        ({
            let p = ip_packet(proto, sip, dip, id, payload);
            &&& p[0] == 0x45
            &&& get16(p, 2) == (20 + payload.len()) % 0x1_0000
            &&& get16(p, 4) == id
            &&& p[6] == 0x40
            &&& p[7] == 0
            &&& p[8] == 64
            &&& p[9] == proto
            &&& p.subrange(12, 16) == sip
            &&& p.subrange(16, 20) == dip
        }),
{
    let p = ip_packet(proto, sip, dip, id, payload);
    assert(p.subrange(12, 16) =~= sip);
    assert(p.subrange(16, 20) =~= dip);
}

/// The frame made by `eth_frame` goes to `dst` from `src`, has the type
/// `dtype`, and carries `payload`.
pub proof fn lemma_eth_frame_fields(dst: Seq<u8>, src: Seq<u8>, dtype: u16, payload: Seq<u8>)
    requires
        dst.len() == 6,
        src.len() == 6,
    ensures
        eth_frame(dst, src, dtype, payload).subrange(0, 6) == dst,
        eth_frame(dst, src, dtype, payload).subrange(6, 12) == src,
        get16(eth_frame(dst, src, dtype, payload), 12) == dtype,
        eth_frame(dst, src, dtype, payload).subrange(14, 14 + payload.len() as int) == payload,
        eth_frame(dst, src, dtype, payload).len() == 14 + payload.len(),
{
    let f = eth_frame(dst, src, dtype, payload);
    assert(f.subrange(0, 6) =~= dst);
    assert(f.subrange(6, 12) =~= src);
    assert(f.subrange(14, 14 + payload.len() as int) =~= payload);
}

} // verus!

//! The ARP layer: the table of peers, the table of the host's own
//! addresses, and the answers to requests.

use vstd::prelude::*;
use crate::net::table::{
    find_key, no_entries, table_entries, table_get, table_insert, table_new, KeyTable,
};
use crate::net::wire::arp::{ArpOpcode, ArpPacket};
use crate::net::wire::eth2::{Ether2Frame, EtherType};
use crate::net::wire::ipaddr::{raw_of, Ipv4Addr};
use crate::net::wire::mac::{key_of, Mac};
use crate::net::wire::{get16, put16, put_bytes};
use crate::net::wire::Packet;

verus! {

/// How many requests are sent for an address before it is given up.
pub const ARP_ATTEMPTS: usize = 5;

/// How long to wait for an answer to a request, in milliseconds.
pub const ARP_WAIT_MS: u64 = 1000;

/// The reply to request `p` from the station with address `local_mac`: the
/// sender becomes the target, the host the sender, and the opcode a reply.
pub open spec fn arp_reply(p: Seq<u8>, local_mac: Seq<u8>) -> Seq<u8> {
    put16(
        put_bytes(
            put_bytes(
                put_bytes(put_bytes(p, 18, p.subrange(8, 14)), 8, local_mac),
                24,
                p.subrange(14, 18),
            ),
            14,
            p.subrange(24, 28),
        ),
        6,
        2,
    )
}

/// The request that asks who has `ip`, sent by the station `local_mac` at
/// `local_ip`.
pub open spec fn arp_request(ip: Seq<u8>, local_ip: Seq<u8>, local_mac: Seq<u8>) -> Seq<u8> {
    put16(
        put_bytes(
            put_bytes(
                put_bytes(
                    put_bytes(Seq::new(28, |i: int| 0u8), 18, Seq::new(6, |i: int| 0xffu8)),
                    8,
                    local_mac,
                ),
                24,
                ip,
            ),
            14,
            local_ip,
        ),
        6,
        1,
    )
}

/// The broadcast frame that carries `arp_request`.
pub open spec fn arp_query_frame(ip: Seq<u8>, local_ip: Seq<u8>, local_mac: Seq<u8>) -> Seq<u8> {
    put16(
        put_bytes(
            put_bytes(Seq::new(14, |i: int| 0u8), 0, Seq::new(6, |i: int| 0xffu8)),
            6,
            local_mac,
        ),
        12,
        0x0806,
    ) + arp_request(ip, local_ip, local_mac)
}

/// How the peers `after` and the answer `reply` follow from the peers
/// `before` when ARP packet `p` arrives at a host with the addresses `local`.
///
/// The sender of every reply is learned, whoever the reply is for, and so
/// is the sender of any packet whose target is one of the host's addresses.
/// Nothing else is learned. A request for one of the host's addresses, and
/// nothing else, is answered.
pub open spec fn arp_handled(
    local: Map<u128, u64>,
    before: Map<u128, u64>,
    after: Map<u128, u64>,
    reply: Option<Seq<u8>>,
    p: Seq<u8>,
) -> bool {
    let for_host = local.dom().contains(raw_of(p.subrange(24, 28)) as u128);
    &&& after == if for_host || get16(p, 6) == 2 {
        before.insert(key_of(p.subrange(8, 14)) as u128, raw_of(p.subrange(14, 18)) as u64)
    } else {
        before
    }
    &&& reply is Some <==> for_host && get16(p, 6) == 1
    &&& reply is Some ==> exists|m: Mac|
        m.spec_key() == local[raw_of(p.subrange(24, 28)) as u128] && reply->Some_0 == arp_reply(
            p,
            #[trigger] m@,
        )
}

/// Where the search for a peer's hardware address stands.
pub enum Resolve {
    /// The address is known.
    Found(Mac),
    /// The address is not known: send this frame, wait, and ask again.
    Query(Ether2Frame),
    /// The address is not known and no request is left to send, or the host
    /// has no such local address.
    Failed,
}

/// The ARP layer.
pub struct Arp {
    arp_table: KeyTable,
    local_arp_table: KeyTable,
}

impl Arp {
    /// The peers: from a hardware address to the IP address learned for it.
    pub closed spec fn remote(&self) -> Map<u128, u64> {
        table_entries(self.arp_table)
    }

    /// The host's own addresses: from an IP address to the hardware address
    /// of the device bound to it.
    pub closed spec fn local(&self) -> Map<u128, u64> {
        table_entries(self.local_arp_table)
    }

    /// Every hardware address in the two tables has 48 bits.
    pub open spec fn wf(&self) -> bool {
        &&& forall|k: u128| #[trigger]
            self.local().dom().contains(k) ==> self.local()[k] < 0x1_0000_0000_0000
        &&& forall|k: u128| #[trigger] self.remote().dom().contains(k) ==> k < 0x1_0000_0000_0000
    }

    /// A layer that knows no peer and has no address.
    pub fn new() -> (r: Self)
        ensures
            r.remote() == no_entries(),
            r.local() == no_entries(),
            r.wf(),
    {
        Arp { arp_table: table_new(), local_arp_table: table_new() }
    }

    /// Treats an ARP packet.
    ///
    /// The sender of a reply is learned, whoever the reply is for; the sender
    /// of any other packet is learned where the packet is for the host. A
    /// request for the host is answered, anything else is not.
    pub fn handle_packet(&mut self, packet: ArpPacket, _ctx: &Ether2Frame) -> (r: Option<ArpPacket>)
        requires
            old(self).wf(),
            packet.wf(),
        ensures
            final(self).wf(),
            final(self).local() == old(self).local(),
            arp_handled(
                old(self).local(),
                old(self).remote(),
                final(self).remote(),
                match r {
                    Some(reply) => Some(reply@),
                    None => None,
                },
                packet@,
            ),
    {
        let opcode = packet.opcode();
        let is_reply = match opcode {
            Some(ArpOpcode::ArpReply) => true,
            _ => false,
        };
        let local_mac = self.resolve_ip_local(packet.tip());
        if local_mac.is_none() && !is_reply {
            return None;
        }
        table_insert(&mut self.arp_table, packet.smac().key() as u128, packet.sip().raw() as u64);
        proof {
            assert forall|k: u128| #[trigger] self.remote().dom().contains(k) implies k
                < 0x1_0000_0000_0000 by {
                if k != key_of(packet@.subrange(8, 14)) as u128 {
                    assert(old(self).remote().dom().contains(k));
                }
            }
        }
        let local_mac = match local_mac {
            Some(m) => m,
            None => {
                return None;
            },
        };
        match opcode {
            Some(ArpOpcode::ArpRequest) => {},
            _ => {
                return None;
            },
        }
        let tip = packet.tip();
        let mut reply = packet;
        let smac = reply.smac();
        reply.set_tmac(smac);
        reply.set_smac(local_mac);
        let sip = reply.sip();
        reply.set_tip(sip);
        reply.set_sip(tip);
        reply.set_opcode(ArpOpcode::ArpReply);
        proof {
            local_mac.lemma_len();
            assert(reply@ =~= arp_reply(packet@, local_mac@));
        }
        Some(reply)
    }

    /// Binds the IP address `lip` to the device with address `lmac`.
    pub fn register_local(&mut self, lip: Ipv4Addr, lmac: Mac)
        requires
            old(self).wf(),
        ensures
            final(self).wf(),
            final(self).remote() == old(self).remote(),
            final(self).local() == old(self).local().insert(
                lip.spec_raw() as u128,
                lmac.spec_key(),
            ),
    {
        let key: u64 = lmac.key();
        table_insert(&mut self.local_arp_table, lip.raw() as u128, key);
        proof {
            assert(self.remote() == old(self).remote());
            assert forall|k: u128| #[trigger] self.remote().dom().contains(k) implies k
                < 0x1_0000_0000_0000 by {
                assert(old(self).remote().dom().contains(k));
            }
            assert forall|k: u128| #[trigger] self.local().dom().contains(k) implies self.local()[k]
                < 0x1_0000_0000_0000 by {
                if k != lip.spec_raw() as u128 {
                    assert(old(self).local().dom().contains(k));
                }
            }
        }
    }

    /// Some peer's hardware address for which `ip` was learned, if there is
    /// one.
    pub fn cached(&self, ip: Ipv4Addr) -> (r: Option<Mac>)
        requires
            self.wf(),
        ensures
            match r {
                Some(m) => self.remote().contains_pair(m.spec_key() as u128, ip.spec_raw() as u64),
                None => forall|k: u128|
                    self.remote().dom().contains(k) ==> self.remote()[k] != ip.spec_raw() as u64,
            },
    {
        match find_key(&self.arp_table, ip.raw() as u64) {
            Some(k) => {
                assert(self.remote().dom().contains(k));
                Some(Mac::from_key(k as u64))
            },
            None => None,
        }
    }

    /// The hardware address of the device that the local address `ip` is
    /// bound to, if it is bound.
    pub fn resolve_ip_local(&self, ip: Ipv4Addr) -> (r: Option<Mac>)
        requires
            self.wf(),
        ensures
            r is Some <==> self.local().dom().contains(ip.spec_raw() as u128),
            r is Some ==> r->Some_0.spec_key() == self.local()[ip.spec_raw() as u128],
    {
        match table_get(&self.local_arp_table, ip.raw() as u128) {
            Some(k) => {
                assert(self.local().dom().contains(ip.spec_raw() as u128));
                Some(Mac::from_key(k))
            },
            None => None,
        }
    }

    /// One step of the search for the hardware address of `ip`, after `asked`
    /// requests were sent from the local address `local`.
    ///
    /// A learned address is found at once. Otherwise a request is due while
    /// fewer than five were sent and `local` is bound; after that the search
    /// fails.
    pub fn resolve_ip(&self, ip: Ipv4Addr, local: Ipv4Addr, asked: usize) -> (r: Resolve)
        requires
            self.wf(),
        ensures
            match r {
                Resolve::Found(m) => self.remote().contains_pair(
                    m.spec_key() as u128,
                    ip.spec_raw() as u64,
                ),
                Resolve::Query(frame) => {
                    &&& forall|k: u128|
                        self.remote().dom().contains(k) ==> self.remote()[k] != ip.spec_raw() as u64
                    &&& self.local().dom().contains(local.spec_raw() as u128)
                    &&& asked < 5
                    &&& exists|m: Mac|
                        m.spec_key() == self.local()[local.spec_raw() as u128] && frame@
                            == arp_query_frame(ip@, local@, #[trigger] m@)
                },
                Resolve::Failed => {
                    &&& forall|k: u128|
                        self.remote().dom().contains(k) ==> self.remote()[k] != ip.spec_raw() as u64
                    &&& (!self.local().dom().contains(local.spec_raw() as u128) || asked >= 5)
                },
            },
    {
        if let Some(m) = self.cached(ip) {
            return Resolve::Found(m);
        }
        let local_mac = match self.resolve_ip_local(local) {
            Some(m) => m,
            None => {
                return Resolve::Failed;
            },
        };
        if asked >= ARP_ATTEMPTS {
            return Resolve::Failed;
        }
        Resolve::Query(Self::arp_query(ip, local, local_mac))
    }

    /// The broadcast frame that asks who has `ip`.
    pub fn arp_query(ip: Ipv4Addr, local_ip: Ipv4Addr, local_mac: Mac) -> (r: Ether2Frame)
        ensures
            r@ == arp_query_frame(ip@, local_ip@, local_mac@),
    {
        proof {
            ip.lemma_len();
            local_ip.lemma_len();
            local_mac.lemma_len();
        }
        let mut request = ArpPacket::zeroed();
        request.set_tmac(Mac::multicast());
        request.set_smac(local_mac);
        request.set_tip(ip);
        request.set_sip(local_ip);
        request.set_opcode(ArpOpcode::ArpRequest);
        assert(request@ =~= arp_request(ip@, local_ip@, local_mac@));
        let mut ethpacket = Ether2Frame::zeroed();
        ethpacket.set_dst(Mac::multicast());
        ethpacket.set_src(local_mac);
        ethpacket.set_dtype(EtherType::ARP);
        ethpacket.set_data(request.as_bytes());
        assert(ethpacket@ =~= arp_query_frame(ip@, local_ip@, local_mac@));
        ethpacket
    }
}

/// What is read from the reply to request `p`: it is a reply, sent by the
/// host's hardware address from the address that was asked for, to the
/// hardware and protocol address of the one who asked; the rest of the
/// packet is as it came.
pub proof fn lemma_arp_reply_fields(p: Seq<u8>, local_mac: Seq<u8>)
    requires
        p.len() >= 28,
        local_mac.len() == 6,
    ensures
        arp_reply(p, local_mac).len() == p.len(),
        get16(arp_reply(p, local_mac), 6) == 2,
        arp_reply(p, local_mac).subrange(8, 14) == local_mac,
        arp_reply(p, local_mac).subrange(14, 18) == p.subrange(24, 28),
        arp_reply(p, local_mac).subrange(18, 24) == p.subrange(8, 14),
        arp_reply(p, local_mac).subrange(24, 28) == p.subrange(14, 18),
        arp_reply(p, local_mac).subrange(0, 6) == p.subrange(0, 6),
        arp_reply(p, local_mac).subrange(28, p.len() as int) == p.subrange(28, p.len() as int),
{
    let r = arp_reply(p, local_mac);
    assert(r.subrange(8, 14) =~= local_mac);
    assert(r.subrange(14, 18) =~= p.subrange(24, 28));
    assert(r.subrange(18, 24) =~= p.subrange(8, 14));
    assert(r.subrange(24, 28) =~= p.subrange(14, 18));
    assert(r.subrange(0, 6) =~= p.subrange(0, 6));
    assert(r.subrange(28, p.len() as int) =~= p.subrange(28, p.len() as int));
}

} // verus!

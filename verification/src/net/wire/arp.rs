//! ARP packets for IPv4 over Ethernet.

use vstd::prelude::*;
use crate::net::wire::eth2::EtherType;
use crate::net::wire::ipaddr::Ipv4Addr;
use crate::net::wire::mac::Mac;
use crate::net::wire::{
    get16, put16, put_bytes, read_be16, read_ip, read_mac, write_be16, write_ip, write_mac,
    zero_bytes,
};
use crate::net::wire::Packet;

verus! {

/// The length of an ARP packet for IPv4 over Ethernet.
pub const MIN_ARP_LEN: usize = 28;

/// What an ARP packet asks of its receiver.
#[derive(Debug, Clone, Copy, Eq, PartialEq, Structural)]
pub enum ArpOpcode {
    ArpRequest,
    ArpReply,
}

impl ArpOpcode {
    /// The number that stands for the opcode on the wire.
    pub open spec fn spec_raw(self) -> u16 {
        match self {
            ArpOpcode::ArpRequest => 1,
            ArpOpcode::ArpReply => 2,
        }
    }

    /// The opcode that a number read from the wire stands for, if any.
    pub open spec fn spec_from_raw(data: u16) -> Option<ArpOpcode> {
        if data == 1 {
            Some(ArpOpcode::ArpRequest)
        } else if data == 2 {
            Some(ArpOpcode::ArpReply)
        } else {
            None
        }
    }

    /// The number that stands for the opcode on the wire.
    pub fn raw(self) -> (r: u16)
        ensures
            r == self.spec_raw(),
    {
        match self {
            ArpOpcode::ArpRequest => 1,
            ArpOpcode::ArpReply => 2,
        }
    }

    /// The opcode that a number read from the wire stands for, if any.
    pub fn from_raw(data: u16) -> (r: Option<ArpOpcode>)
        ensures
            r == Self::spec_from_raw(data),
    {
        if data == 1 {
            Some(ArpOpcode::ArpRequest)
        } else if data == 2 {
            Some(ArpOpcode::ArpReply)
        } else {
            None
        }
    }

    /// An opcode survives the trip to the wire and back.
    pub proof fn lemma_raw_round_trip(op: ArpOpcode)
        ensures
            Self::spec_from_raw(op.spec_raw()) == Some(op),
    {
    }
}

/// An ARP packet: hardware and protocol types and sizes, the opcode, then
/// the sender's and the target's hardware and protocol addresses.
#[derive(Debug, Clone)]
pub struct ArpPacket(Vec<u8>);

impl ArpPacket {
    /// The bytes of the packet.
    pub closed spec fn view(&self) -> Seq<u8> {
        self.0@
    }

    /// A packet is never shorter than the fixed ARP layout.
    pub open spec fn wf(&self) -> bool {
        self@.len() >= 28
    }

    /// The hardware type.
    pub fn hw_type(&self) -> (r: u16)
        requires
            self.wf(),
        ensures
            r == get16(self@, 0),
    {
        read_be16(&self.0, 0)
    }

    /// The protocol that the addresses belong to.
    pub fn proto(&self) -> (r: EtherType)
        requires
            self.wf(),
        ensures
            r == EtherType::spec_from_raw(get16(self@, 2)),
    {
        EtherType::from_raw(read_be16(&self.0, 2))
    }

    /// The length of a hardware address.
    pub fn hw_size(&self) -> (r: u8)
        requires
            self.wf(),
        ensures
            r == self@[4],
    {
        self.0[4]
    }

    /// The length of a protocol address.
    pub fn proto_size(&self) -> (r: u8)
        requires
            self.wf(),
        ensures
            r == self@[5],
    {
        self.0[5]
    }

    /// The opcode, or nothing where the field holds neither request nor reply.
    pub fn opcode(&self) -> (r: Option<ArpOpcode>)
        requires
            self.wf(),
        ensures
            r == ArpOpcode::spec_from_raw(get16(self@, 6)),
    {
        ArpOpcode::from_raw(read_be16(&self.0, 6))
    }

    /// The sender's hardware address.
    pub fn smac(&self) -> (r: Mac)
        requires
            self.wf(),
        ensures
            r@ == self@.subrange(8, 14),
    {
        read_mac(&self.0, 8)
    }

    /// The sender's protocol address.
    pub fn sip(&self) -> (r: Ipv4Addr)
        requires
            self.wf(),
        ensures
            r@ == self@.subrange(14, 18),
    {
        read_ip(&self.0, 14)
    }

    /// The target's hardware address.
    pub fn tmac(&self) -> (r: Mac)
        requires
            self.wf(),
        ensures
            r@ == self@.subrange(18, 24),
    {
        read_mac(&self.0, 18)
    }

    /// The target's protocol address.
    pub fn tip(&self) -> (r: Ipv4Addr)
        requires
            self.wf(),
        ensures
            r@ == self@.subrange(24, 28),
    {
        read_ip(&self.0, 24)
    }

    /// Sets the hardware type and nothing else.
    pub fn set_hw_type(&mut self, hw_type: u16)
        requires
            old(self).wf(),
        ensures
            final(self)@ == put16(old(self)@, 0, hw_type),
            get16(final(self)@, 0) == hw_type,
    {
        write_be16(&mut self.0, 0, hw_type);
    }

    /// Sets the protocol type and nothing else.
    pub fn set_proto(&mut self, proto: EtherType)
        requires
            old(self).wf(),
        ensures
            final(self)@ == put16(old(self)@, 2, proto.spec_raw()),
            get16(final(self)@, 2) == proto.spec_raw(),
    {
        write_be16(&mut self.0, 2, proto.raw());
    }

    /// Sets the hardware address length and nothing else.
    pub fn set_hw_size(&mut self, hw_size: u8)
        requires
            old(self).wf(),
        ensures
            final(self)@ == old(self)@.update(4, hw_size),
    {
        self.0[4] = hw_size;
    }

    /// Sets the protocol address length and nothing else.
    pub fn set_proto_size(&mut self, proto_size: u8)
        requires
            old(self).wf(),
        ensures
            final(self)@ == old(self)@.update(5, proto_size),
    {
        self.0[5] = proto_size;
    }

    /// Sets the opcode and nothing else.
    pub fn set_opcode(&mut self, opcode: ArpOpcode)
        requires
            old(self).wf(),
        ensures
            final(self)@ == put16(old(self)@, 6, opcode.spec_raw()),
            get16(final(self)@, 6) == opcode.spec_raw(),
    {
        write_be16(&mut self.0, 6, opcode.raw());
    }

    /// Sets the sender's hardware address and nothing else.
    pub fn set_smac(&mut self, smac: Mac)
        requires
            old(self).wf(),
        ensures
            final(self)@ == put_bytes(old(self)@, 8, smac@),
            final(self)@.subrange(8, 14) == smac@,
    {
        write_mac(&mut self.0, 8, smac);
    }

    /// Sets the sender's protocol address and nothing else.
    pub fn set_sip(&mut self, sip: Ipv4Addr)
        requires
            old(self).wf(),
        ensures
            final(self)@ == put_bytes(old(self)@, 14, sip@),
            final(self)@.subrange(14, 18) == sip@,
    {
        write_ip(&mut self.0, 14, sip);
    }

    /// Sets the target's hardware address and nothing else.
    pub fn set_tmac(&mut self, tmac: Mac)
        requires
            old(self).wf(),
        ensures
            final(self)@ == put_bytes(old(self)@, 18, tmac@),
            final(self)@.subrange(18, 24) == tmac@,
    {
        write_mac(&mut self.0, 18, tmac);
    }

    /// Sets the target's protocol address and nothing else.
    pub fn set_tip(&mut self, tip: Ipv4Addr)
        requires
            old(self).wf(),
        ensures
            final(self)@ == put_bytes(old(self)@, 24, tip@),
            final(self)@.subrange(24, 28) == tip@,
    {
        write_ip(&mut self.0, 24, tip);
    }

    /// The bytes of the packet.
    pub fn as_bytes(&self) -> (r: &[u8])
        ensures
            r@ == self@,
    {
        self.0.as_slice()
    }

    /// A copy of the packet.
    pub fn duplicate(&self) -> (r: ArpPacket)
        ensures
            r@ == self@,
    {
        ArpPacket(vstd::slice::slice_to_vec(self.0.as_slice()))
    }
}

impl Packet for ArpPacket {
    open spec fn wire(&self) -> Seq<u8> {
        self@
    }

    open spec fn accepts(bytes: Seq<u8>) -> bool {
        bytes.len() >= 28
    }

    open spec fn parsed(bytes: Seq<u8>) -> Seq<u8> {
        bytes
    }

    open spec fn blank() -> Seq<u8> {
        Seq::new(28, |i: int| 0u8)
    }

    open spec fn stable(&self) -> bool {
        self.wf()
    }

    proof fn lemma_bytes_round_trip(&self) {
    }

    fn zeroed() -> (r: Self) {
        ArpPacket(zero_bytes(MIN_ARP_LEN))
    }

    fn from_bytes(bytes: Vec<u8>) -> (r: Result<Self, ()>) {
        if bytes.len() < MIN_ARP_LEN {
            return Err(());
        }
        Ok(ArpPacket(bytes))
    }

    fn into_bytes(self) -> (r: Vec<u8>) {
        self.0
    }
}

} // verus!

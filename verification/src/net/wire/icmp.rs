//! ICMP packets.

use vstd::prelude::*;
use crate::net::wire::ipv4::{
    checksum, fold16, lemma_checksum_verifies, lemma_word_sum_fits, lemma_word_sum_update_pair,
    spec_checksum, spec_u32_to_u16, u32_to_u16, word_sum,
};
use crate::net::wire::{
    get16, hi8, high_byte, lo8, low_byte, put16, read_be16, write_be16, zero_bytes,
};
use crate::net::wire::Packet;

verus! {

/// The length of the ICMP echo header.
pub const ICMP_ECHO_MIN_SIZE: usize = 8;

/// The kinds of ICMP message that the stack knows.
#[derive(Clone, Copy, Debug, PartialEq, Eq, Structural)]
pub enum IcmpType {
    EchoReply,
    Echo,
}

impl IcmpType {
    /// The number that stands for the type on the wire.
    pub open spec fn spec_raw(self) -> u8 {
        match self {
            IcmpType::EchoReply => 0x00,
            IcmpType::Echo => 0x08,
        }
    }

    /// The type that a number read from the wire stands for, if the stack
    /// knows it.
    pub open spec fn spec_from_raw(i: u8) -> Option<IcmpType> {
        if i == 0x00 {
            Some(IcmpType::EchoReply)
        } else if i == 0x08 {
            Some(IcmpType::Echo)
        } else {
            None
        }
    }

    /// The number that stands for the type on the wire.
    pub fn raw(self) -> (r: u8)
        ensures
            r == self.spec_raw(),
    {
        match self {
            IcmpType::EchoReply => 0x00,
            IcmpType::Echo => 0x08,
        }
    }

    /// The type that a number read from the wire stands for, if the stack
    /// knows it.
    pub fn from_raw(i: u8) -> (r: Option<IcmpType>)
        ensures
            r == Self::spec_from_raw(i),
    {
        if i == 0x00 {
            Some(IcmpType::EchoReply)
        } else if i == 0x08 {
            Some(IcmpType::Echo)
        } else {
            None
        }
    }

    /// A type survives the trip to the wire and back.
    pub proof fn lemma_raw_round_trip(t: IcmpType)
        ensures
            Self::spec_from_raw(t.spec_raw()) == Some(t),
    {
    }
}

/// The codes of an ICMP destination-unreachable message.
#[derive(Clone, Copy, Debug, PartialEq, Eq, Structural)]
pub enum IcmpCode {
    NetDown,
    HostDown,
    ProtocolDown,
    PortDown,
    FragNeeded,
    SourceRouteFailed,
    Unknown,
}

impl IcmpCode {
    /// The number that stands for the code on the wire.
    pub open spec fn spec_raw(self) -> u8 {
        match self {
            IcmpCode::NetDown => 0,
            IcmpCode::HostDown => 1,
            IcmpCode::ProtocolDown => 2,
            IcmpCode::PortDown => 3,
            IcmpCode::FragNeeded => 4,
            IcmpCode::SourceRouteFailed => 5,
            IcmpCode::Unknown => 6,
        }
    }

    /// The code that a number read from the wire stands for.
    pub open spec fn spec_from_raw(i: u8) -> IcmpCode {
        if i == 0 {
            IcmpCode::NetDown
        } else if i == 1 {
            IcmpCode::HostDown
        } else if i == 2 {
            IcmpCode::ProtocolDown
        } else if i == 3 {
            IcmpCode::PortDown
        } else if i == 4 {
            IcmpCode::FragNeeded
        } else if i == 5 {
            IcmpCode::SourceRouteFailed
        } else {
            IcmpCode::Unknown
        }
    }

    /// The number that stands for the code on the wire.
    pub fn raw(self) -> (r: u8)
        ensures
            r == self.spec_raw(),
    {
        match self {
            IcmpCode::NetDown => 0,
            IcmpCode::HostDown => 1,
            IcmpCode::ProtocolDown => 2,
            IcmpCode::PortDown => 3,
            IcmpCode::FragNeeded => 4,
            IcmpCode::SourceRouteFailed => 5,
            IcmpCode::Unknown => 6,
        }
    }

    /// The code that a number read from the wire stands for; any number above
    /// the six known ones is unknown.
    pub fn from_raw(i: u8) -> (r: IcmpCode)
        ensures
            r == Self::spec_from_raw(i),
    {
        if i == 0 {
            IcmpCode::NetDown
        } else if i == 1 {
            IcmpCode::HostDown
        } else if i == 2 {
            IcmpCode::ProtocolDown
        } else if i == 3 {
            IcmpCode::PortDown
        } else if i == 4 {
            IcmpCode::FragNeeded
        } else if i == 5 {
            IcmpCode::SourceRouteFailed
        } else {
            IcmpCode::Unknown
        }
    }

    /// A code survives the trip to the wire and back.
    pub proof fn lemma_raw_round_trip(c: IcmpCode)
        ensures
            Self::spec_from_raw(c.spec_raw()) == c,
    {
    }
}

/// `s` with the ICMP checksum computed over all of it, the field zeroed, and
/// stored low byte first.
pub open spec fn with_echo_checksum(s: Seq<u8>) -> Seq<u8> {
    let c = spec_u32_to_u16(spec_checksum(s.update(2, 0u8).update(3, 0u8)));
    s.update(2, lo8(c)).update(3, hi8(c))
}

/// An ICMP packet: type, code, checksum, identifier, sequence number, then
/// the payload.
#[derive(Clone, Debug)]
pub struct Icmp(Vec<u8>);

impl Icmp {
    /// The bytes of the packet.
    pub closed spec fn view(&self) -> Seq<u8> {
        self.0@
    }

    /// A packet is never shorter than its header.
    pub open spec fn wf(&self) -> bool {
        self@.len() >= 8
    }

    /// The message type, or nothing where the stack does not know it.
    pub fn packet_type(&self) -> (r: Option<IcmpType>)
        requires
            self.wf(),
        ensures
            r == IcmpType::spec_from_raw(self@[0]),
    {
        IcmpType::from_raw(self.0[0])
    }

    /// The message code.
    pub fn code(&self) -> (r: IcmpCode)
        requires
            self.wf(),
        ensures
            r == IcmpCode::spec_from_raw(self@[1]),
    {
        IcmpCode::from_raw(self.0[1])
    }

    /// The checksum field, read big-endian.
    pub fn checksum(&self) -> (r: u16)
        requires
            self.wf(),
        ensures
            r == get16(self@, 2),
    {
        read_be16(&self.0, 2)
    }

    /// The identifier of an echo message.
    pub fn identifier(&self) -> (r: u16)
        requires
            self.wf(),
        ensures
            r == get16(self@, 4),
    {
        read_be16(&self.0, 4)
    }

    /// The sequence number of an echo message.
    pub fn seq(&self) -> (r: u16)
        requires
            self.wf(),
        ensures
            r == get16(self@, 6),
    {
        read_be16(&self.0, 6)
    }

    /// The payload: everything behind the header.
    pub fn data(&self) -> (r: &[u8])
        requires
            self.wf(),
        ensures
            r@ == self@.subrange(8, self@.len() as int),
    {
        vstd::slice::slice_subrange(self.0.as_slice(), 8, self.0.len())
    }

    /// Sets the message type and nothing else.
    pub fn set_packet_type(&mut self, packet_type: IcmpType)
        requires
            old(self).wf(),
        ensures
            final(self)@ == old(self)@.update(0, packet_type.spec_raw()),
    {
        self.0[0] = packet_type.raw();
    }

    /// Sets the message code and nothing else.
    pub fn set_code(&mut self, code: IcmpCode)
        requires
            old(self).wf(),
        ensures
            final(self)@ == old(self)@.update(1, code.spec_raw()),
    {
        self.0[1] = code.raw();
    }

    /// Computes the checksum over the whole packet with its own field zeroed
    /// and stores it, low byte first.
    pub fn set_checksum(&mut self)
        requires
            old(self).wf(),
        ensures
            final(self)@ == with_echo_checksum(old(self)@),
    {
        self.0[2] = 0;
        self.0[3] = 0;
        let csum: u16 = u32_to_u16(checksum(self.0.as_slice()));
        self.0[2] = low_byte(csum);
        self.0[3] = high_byte(csum);
        assert(self.0@ =~= with_echo_checksum(old(self)@));
    }

    /// Sets the identifier and nothing else.
    pub fn set_identifier(&mut self, identifier: u16)
        requires
            old(self).wf(),
        ensures
            final(self)@ == put16(old(self)@, 4, identifier),
            get16(final(self)@, 4) == identifier,
    {
        write_be16(&mut self.0, 4, identifier);
    }

    /// Sets the sequence number and nothing else.
    pub fn set_seq(&mut self, seq: u16)
        requires
            old(self).wf(),
        ensures
            final(self)@ == put16(old(self)@, 6, seq),
            get16(final(self)@, 6) == seq,
    {
        write_be16(&mut self.0, 6, seq);
    }

    /// Replaces the payload: the header stays, `data` follows it.
    pub fn set_data(&mut self, data: &[u8])
        requires
            old(self).wf(),
        ensures
            final(self)@ == old(self)@.subrange(0, 8) + data@,
    {
        self.0.truncate(8);
        self.0.extend_from_slice(data);
        assert(self.0@ =~= old(self)@.subrange(0, 8) + data@);
    }

    /// Gives the buffer back.
    pub fn into_inner(self) -> (r: Vec<u8>)
        ensures
            r@ == self@,
    {
        self.0
    }

    /// A copy of the packet.
    pub fn duplicate(&self) -> (r: Icmp)
        ensures
            r@ == self@,
    {
        Icmp(vstd::slice::slice_to_vec(self.0.as_slice()))
    }
}

impl Packet for Icmp {
    open spec fn wire(&self) -> Seq<u8> {
        self@
    }

    open spec fn accepts(bytes: Seq<u8>) -> bool {
        bytes.len() >= 8
    }

    open spec fn parsed(bytes: Seq<u8>) -> Seq<u8> {
        bytes
    }

    open spec fn blank() -> Seq<u8> {
        Seq::new(8, |i: int| 0u8)
    }

    open spec fn stable(&self) -> bool {
        self.wf()
    }

    proof fn lemma_bytes_round_trip(&self) {
    }

    fn zeroed() -> (r: Self) {
        Icmp(zero_bytes(ICMP_ECHO_MIN_SIZE))
    }

    fn from_bytes(bytes: Vec<u8>) -> (r: Result<Self, ()>) {
        if bytes.len() < ICMP_ECHO_MIN_SIZE {
            return Err(());
        }
        Ok(Icmp(bytes))
    }

    fn into_bytes(self) -> (r: Vec<u8>) {
        self.0
    }
}

/// A packet that carries the checksum computed for it sums, as a whole, to
/// the one's-complement zero. This holds of packets up to 65536 bytes, whose
/// sum `checksum` returns without loss.
pub proof fn lemma_echo_checksum_verifies(s: Seq<u8>)
    requires
        8 <= s.len() <= 0x1_0000,
    ensures
        fold16(word_sum(with_echo_checksum(s))) == 0xffff,
{
    let z = s.update(2, 0u8).update(3, 0u8);
    let c = spec_u32_to_u16(spec_checksum(z));
    lemma_word_sum_fits(z);
    lemma_word_sum_update_pair(z, 1, lo8(c), hi8(c));
    assert(with_echo_checksum(s) =~= z.update(2, lo8(c)).update(3, hi8(c)));
    lemma_checksum_verifies(spec_checksum(z));
}

} // verus!

//! Ethernet II frames.

use vstd::prelude::*;
use crate::net::wire::mac::Mac;
use crate::net::wire::{get16, put16, put_bytes, read_be16, read_mac, write_be16, write_mac, zero_bytes};
use crate::net::wire::Packet;

verus! {

/// The length of the Ethernet II header, and so of the shortest frame.
pub const ETH2_MIN_VALID_SIZE: usize = 14;

/// What an Ethernet II frame carries.
#[derive(Debug, Eq, PartialEq, Clone, Copy, Structural)]
pub enum EtherType {
    IPv4,
    ARP,
    Ipv6,
    Unsupported,
}

impl EtherType {
    /// The number that stands for the tag on the wire.
    pub open spec fn spec_raw(self) -> u16 {
        match self {
            EtherType::IPv4 => 0x0800,
            EtherType::ARP => 0x0806,
            EtherType::Ipv6 => 0x86dd,
            EtherType::Unsupported => 0x86de,
        }
    }

    /// The tag that a number read from the wire stands for.
    pub open spec fn spec_from_raw(data: u16) -> EtherType {
        if data == 0x0800 {
            EtherType::IPv4
        } else if data == 0x0806 {
            EtherType::ARP
        } else if data == 0x86dd {
            EtherType::Ipv6
        } else {
            EtherType::Unsupported
        }
    }

    /// The number that stands for the tag on the wire.
    pub fn raw(self) -> (r: u16)
        ensures
            r == self.spec_raw(),
    {
        match self {
            EtherType::IPv4 => 0x0800,
            EtherType::ARP => 0x0806,
            EtherType::Ipv6 => 0x86dd,
            EtherType::Unsupported => 0x86de,
        }
    }

    /// The tag that a number read from the wire stands for; any number that is
    /// not one of the three known ones is unsupported.
    pub fn from_raw(data: u16) -> (r: EtherType)
        ensures
            r == Self::spec_from_raw(data),
    {
        if data == 0x0800 {
            EtherType::IPv4
        } else if data == 0x0806 {
            EtherType::ARP
        } else if data == 0x86dd {
            EtherType::Ipv6
        } else {
            EtherType::Unsupported
        }
    }

    /// A tag survives the trip to the wire and back.
    pub proof fn lemma_raw_round_trip(t: EtherType)
        ensures
            Self::spec_from_raw(t.spec_raw()) == t,
    {
    }
}

/// An Ethernet II frame: destination, source, type, then the payload.
#[derive(Eq, PartialEq, Debug)]
pub struct Ether2Frame(Vec<u8>);

impl Ether2Frame {
    /// The bytes of the frame.
    pub closed spec fn view(&self) -> Seq<u8> {
        self.0@
    }

    /// A frame is never shorter than its header.
    pub open spec fn wf(&self) -> bool {
        self@.len() >= 14
    }

    /// The length of the frame in bytes.
    pub fn len(&self) -> (r: usize)
        ensures
            r == self@.len(),
    {
        self.0.len()
    }

    /// The destination address.
    pub fn dst(&self) -> (r: Mac)
        requires
            self.wf(),
        ensures
            r@ == self@.subrange(0, 6),
    {
        read_mac(&self.0, 0)
    }

    /// The source address.
    pub fn src(&self) -> (r: Mac)
        requires
            self.wf(),
        ensures
            r@ == self@.subrange(6, 12),
    {
        read_mac(&self.0, 6)
    }

    /// What the frame carries.
    pub fn dtype(&self) -> (r: EtherType)
        requires
            self.wf(),
        ensures
            r == EtherType::spec_from_raw(get16(self@, 12)),
    {
        EtherType::from_raw(read_be16(&self.0, 12))
    }

    /// The payload: everything behind the header.
    pub fn data(&self) -> (r: &[u8])
        requires
            self.wf(),
        ensures
            r@ == self@.subrange(14, self@.len() as int),
    {
        vstd::slice::slice_subrange(self.0.as_slice(), 14, self.0.len())
    }

    /// The bytes of the frame.
    pub fn as_bytes(&self) -> (r: &[u8])
        ensures
            r@ == self@,
    {
        self.0.as_slice()
    }

    /// A copy of the frame.
    pub fn duplicate(&self) -> (r: Ether2Frame)
        ensures
            r@ == self@,
    {
        Ether2Frame(vstd::slice::slice_to_vec(self.0.as_slice()))
    }

    /// Sets the destination address and nothing else.
    pub fn set_dst(&mut self, dst: Mac)
        requires
            old(self).wf(),
        ensures
            final(self)@ == put_bytes(old(self)@, 0, dst@),
            final(self)@.subrange(0, 6) == dst@,
    {
        write_mac(&mut self.0, 0, dst);
    }

    /// Sets the source address and nothing else.
    pub fn set_src(&mut self, src: Mac)
        requires
            old(self).wf(),
        ensures
            final(self)@ == put_bytes(old(self)@, 6, src@),
            final(self)@.subrange(6, 12) == src@,
    {
        write_mac(&mut self.0, 6, src);
    }

    /// Sets the type field and nothing else.
    pub fn set_dtype(&mut self, dtype: EtherType)
        requires
            old(self).wf(),
        ensures
            final(self)@ == put16(old(self)@, 12, dtype.spec_raw()),
            get16(final(self)@, 12) == dtype.spec_raw(),
    {
        write_be16(&mut self.0, 12, dtype.raw());
    }

    /// Replaces the payload: the header stays, `data` follows it.
    pub fn set_data(&mut self, data: &[u8])
        requires
            old(self).wf(),
        ensures
            final(self)@ == old(self)@.subrange(0, 14) + data@,
    {
        self.0.truncate(14);
        self.0.extend_from_slice(data);
        assert(self.0@ =~= old(self)@.subrange(0, 14) + data@);
    }
}

impl Packet for Ether2Frame {
    open spec fn wire(&self) -> Seq<u8> {
        self@
    }

    open spec fn accepts(bytes: Seq<u8>) -> bool {
        bytes.len() >= 14
    }

    open spec fn parsed(bytes: Seq<u8>) -> Seq<u8> {
        bytes
    }

    open spec fn blank() -> Seq<u8> {
        Seq::new(14, |i: int| 0u8)
    }

    open spec fn stable(&self) -> bool {
        self.wf()
    }

    proof fn lemma_bytes_round_trip(&self) {
    }

    fn zeroed() -> (r: Self) {
        Ether2Frame(zero_bytes(ETH2_MIN_VALID_SIZE))
    }

    fn from_bytes(bytes: Vec<u8>) -> (r: Result<Self, ()>) {
        if bytes.len() < ETH2_MIN_VALID_SIZE {
            return Err(());
        }
        Ok(Ether2Frame(bytes))
    }

    fn into_bytes(self) -> (r: Vec<u8>) {
        self.0
    }
}

} // verus!

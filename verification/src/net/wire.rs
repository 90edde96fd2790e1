//! Packet views over byte buffers, and the big-endian field helpers they share.

use vstd::prelude::*;

pub mod mac;
pub mod ipaddr;
pub mod eth2;
pub mod arp;
pub mod ipv4;
pub mod icmp;
pub mod tcp;

use crate::net::wire::mac::Mac;
use crate::net::wire::ipaddr::Ipv4Addr;

verus! {

/// The upper byte of a 16-bit value.
pub open spec fn hi8(v: u16) -> u8 {
    (v / 256) as u8
}

/// The lower byte of a 16-bit value.
pub open spec fn lo8(v: u16) -> u8 {
    (v % 256) as u8
}

/// The 16-bit value whose big-endian encoding is `hi, lo`.
pub open spec fn be16(hi: u8, lo: u8) -> u16 {
    (hi as int * 256 + lo as int) as u16
}

/// The 32-bit value whose big-endian encoding is `a, b, c, d`.
pub open spec fn be32(a: u8, b: u8, c: u8, d: u8) -> u32 {
    (((a as int * 256 + b as int) * 256 + c as int) * 256 + d as int) as u32
}

/// Byte `k` (0 is the most significant) of the big-endian encoding of `v`.
pub open spec fn byte_of32(v: u32, k: int) -> u8 {
    if k == 0 {
        (v / 16777216) as u8
    } else if k == 1 {
        (v / 65536 % 256) as u8
    } else if k == 2 {
        (v / 256 % 256) as u8
    } else {
        (v % 256) as u8
    }
}

/// The big-endian 16-bit field that starts at `at`.
pub open spec fn get16(s: Seq<u8>, at: int) -> u16 {
    be16(s[at], s[at + 1])
}

/// `s` with the big-endian 16-bit field at `at` set to `v`.
pub open spec fn put16(s: Seq<u8>, at: int, v: u16) -> Seq<u8> {
    s.update(at, hi8(v)).update(at + 1, lo8(v))
}

/// The big-endian 32-bit field that starts at `at`.
pub open spec fn get32(s: Seq<u8>, at: int) -> u32 {
    be32(s[at], s[at + 1], s[at + 2], s[at + 3])
}

/// `s` with the big-endian 32-bit field at `at` set to `v`.
pub open spec fn put32(s: Seq<u8>, at: int, v: u32) -> Seq<u8> {
    s.update(at, byte_of32(v, 0)).update(at + 1, byte_of32(v, 1)).update(
        at + 2,
        byte_of32(v, 2),
    ).update(at + 3, byte_of32(v, 3))
}

/// `s` with the bytes from `at` on replaced, one for one, by those of `field`.
pub open spec fn put_bytes(s: Seq<u8>, at: int, field: Seq<u8>) -> Seq<u8> {
    Seq::new(
        s.len(),
        |i: int|
            if at <= i < at + field.len() {
                field[i - at]
            } else {
                s[i]
            },
    )
}

/// The lower byte of `v`.
pub fn low_byte(v: u16) -> (r: u8)
    ensures
        r == lo8(v),
{
    (v % 256) as u8
}

/// The upper byte of `v`.
pub fn high_byte(v: u16) -> (r: u8)
    ensures
        r == hi8(v),
{
    (v / 256) as u8
}

/// Reads the big-endian 16-bit field at `at`.
pub fn read_be16(bytes: &Vec<u8>, at: usize) -> (r: u16)
    requires
        at + 1 < bytes.len(),
    ensures
        r == get16(bytes@, at as int),
{
    let hi: u16 = bytes[at] as u16;
    let lo: u16 = bytes[at + 1] as u16;
    hi * 256 + lo
}

/// Writes `v` big-endian into the 16-bit field at `at`.
pub fn write_be16(bytes: &mut Vec<u8>, at: usize, v: u16)
    requires
        at + 1 < old(bytes).len(),
    ensures
        final(bytes)@ == put16(old(bytes)@, at as int, v),
        get16(final(bytes)@, at as int) == v,
{
    bytes[at] = (v / 256) as u8;
    bytes[at + 1] = (v % 256) as u8;
}

/// Reads the big-endian 32-bit field at `at`.
pub fn read_be32(bytes: &Vec<u8>, at: usize) -> (r: u32)
    requires
        at + 3 < bytes.len(),
    ensures
        r == get32(bytes@, at as int),
{
    let a: u32 = bytes[at] as u32;
    let b: u32 = bytes[at + 1] as u32;
    let c: u32 = bytes[at + 2] as u32;
    let d: u32 = bytes[at + 3] as u32;
    ((a * 256 + b) * 256 + c) * 256 + d
}

/// Writes `v` big-endian into the 32-bit field at `at`.
pub fn write_be32(bytes: &mut Vec<u8>, at: usize, v: u32)
    requires
        at + 3 < old(bytes).len(),
    ensures
        final(bytes)@ == put32(old(bytes)@, at as int, v),
        get32(final(bytes)@, at as int) == v,
{
    bytes[at] = (v / 16777216) as u8;
    bytes[at + 1] = (v / 65536 % 256) as u8;
    bytes[at + 2] = (v / 256 % 256) as u8;
    bytes[at + 3] = (v % 256) as u8;
}

/// Copies `field` over the bytes of `bytes` that start at `at`.
pub fn write_bytes(bytes: &mut Vec<u8>, at: usize, field: &[u8])
    requires
        at + field@.len() <= old(bytes).len(),
    ensures
        final(bytes)@ == put_bytes(old(bytes)@, at as int, field@),
        final(bytes)@.subrange(at as int, at + field@.len()) == field@,
{
    let n: usize = field.len();
    let mut i: usize = 0;
    while i < n
        invariant
            n == field@.len(),
            i <= n,
            at + n <= bytes.len(),
            bytes@.len() == old(bytes)@.len(),
            forall|j: int| 0 <= j < bytes@.len() ==> bytes@[j] == if at <= j < at + i {
                field@[j - at]
            } else {
                old(bytes)@[j]
            },
        decreases n - i,
    {
        bytes[at + i] = field[i];
        i = i + 1;
    }
    assert(bytes@ =~= put_bytes(old(bytes)@, at as int, field@));
    assert(bytes@.subrange(at as int, at + field@.len()) =~= field@);
}

/// The six bytes at `at` as a MAC address.
pub fn read_mac(bytes: &Vec<u8>, at: usize) -> (r: Mac)
    requires
        at + 6 <= bytes.len(),
    ensures
        r@ == bytes@.subrange(at as int, at + 6),
{
    let r = Mac::from_octets(
        [
            bytes[at],
            bytes[at + 1],
            bytes[at + 2],
            bytes[at + 3],
            bytes[at + 4],
            bytes[at + 5],
        ],
    );
    assert(r@ =~= bytes@.subrange(at as int, at + 6));
    r
}

/// The four bytes at `at` as an IPv4 address.
pub fn read_ip(bytes: &Vec<u8>, at: usize) -> (r: Ipv4Addr)
    requires
        at + 4 <= bytes.len(),
    ensures
        r@ == bytes@.subrange(at as int, at + 4),
{
    let r = Ipv4Addr::new(bytes[at], bytes[at + 1], bytes[at + 2], bytes[at + 3]);
    assert(r@ =~= bytes@.subrange(at as int, at + 4));
    r
}

/// Writes the six bytes of `mac` at `at`.
pub fn write_mac(bytes: &mut Vec<u8>, at: usize, mac: Mac)
    requires
        at + 6 <= old(bytes).len(),
    ensures
        final(bytes)@ == put_bytes(old(bytes)@, at as int, mac@),
        final(bytes)@.subrange(at as int, at + 6) == mac@,
{
    proof {
        mac.lemma_len();
    }
    let o = mac.octets();
    write_bytes(bytes, at, o.as_slice());
}

/// Writes the four bytes of `ip` at `at`.
pub fn write_ip(bytes: &mut Vec<u8>, at: usize, ip: Ipv4Addr)
    requires
        at + 4 <= old(bytes).len(),
    ensures
        final(bytes)@ == put_bytes(old(bytes)@, at as int, ip@),
        final(bytes)@.subrange(at as int, at + 4) == ip@,
{
    proof {
        ip.lemma_len();
    }
    let o = ip.octets();
    write_bytes(bytes, at, o.as_slice());
}

/// A vector of `n` zero bytes.
pub fn zero_bytes(n: usize) -> (r: Vec<u8>)
    ensures
        r@ == Seq::new(n as nat, |i: int| 0u8),
{
    let mut v: Vec<u8> = Vec::new();
    let mut i: usize = 0;
    while i < n
        invariant
            i <= n,
            v@.len() == i,
            forall|j: int| 0 <= j < i ==> v@[j] == 0u8,
        decreases n - i,
    {
        v.push(0u8);
        i = i + 1;
    }
    assert(v@ =~= Seq::new(n as nat, |i: int| 0u8));
    v
}

/// A packet that is a view over a byte buffer.
pub trait Packet: Sized {
    /// The bytes that the packet holds.
    spec fn wire(&self) -> Seq<u8>;

    /// The buffers that `from_bytes` accepts.
    spec fn accepts(bytes: Seq<u8>) -> bool;

    /// The bytes of the packet that `from_bytes` makes of an accepted buffer.
    spec fn parsed(bytes: Seq<u8>) -> Seq<u8>;

    /// The bytes of the packet that `zeroed` makes.
    spec fn blank() -> Seq<u8>;

    /// Whether the packet is one that parsing leaves as it is.
    spec fn stable(&self) -> bool;

    /// A stable packet given back as bytes and parsed again is the same
    /// packet.
    proof fn lemma_bytes_round_trip(&self)
        ensures
            self.stable() ==> Self::accepts(self.wire()) && Self::parsed(self.wire())
                == self.wire(),
    ;

    /// A packet of the smallest valid length, with nothing set but what the
    /// format needs.
    fn zeroed() -> (r: Self)
        ensures
            r.wire() == Self::blank(),
    ;

    /// Takes `bytes` as a packet, or refuses a buffer that is too short.
    fn from_bytes(bytes: Vec<u8>) -> (r: Result<Self, ()>)
        ensures
            r is Ok <==> Self::accepts(bytes@),
            r is Ok ==> r->Ok_0.wire() == Self::parsed(bytes@),
    ;

    /// Gives the buffer back.
    fn into_bytes(self) -> (r: Vec<u8>)
        ensures
            r@ == self.wire(),
    ;
}

/// The unit type is the packet that carries nothing and parses from nothing.
impl Packet for () {
    open spec fn wire(&self) -> Seq<u8> {
        Seq::empty()
    }

    open spec fn accepts(bytes: Seq<u8>) -> bool {
        false
    }

    open spec fn parsed(bytes: Seq<u8>) -> Seq<u8> {
        Seq::empty()
    }

    open spec fn blank() -> Seq<u8> {
        Seq::empty()
    }

    /// The unit packet never parses, so it is never stable.
    open spec fn stable(&self) -> bool {
        false
    }

    proof fn lemma_bytes_round_trip(&self) {
    }

    fn zeroed() -> (r: ()) {
        ()
    }

    fn from_bytes(bytes: Vec<u8>) -> (r: Result<(), ()>) {
        Err(())
    }

    fn into_bytes(self) -> (r: Vec<u8>) {
        Vec::new()
    }
}

} // verus!

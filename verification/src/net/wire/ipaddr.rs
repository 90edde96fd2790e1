//! IPv4 addresses.

use vstd::prelude::*;

verus! {

/// Four bytes as one little-endian number: the first byte is the least
/// significant.
pub open spec fn raw_of(b: Seq<u8>) -> u32 {
    (((b[3] as int * 256 + b[2] as int) * 256 + b[1] as int) * 256 + b[0] as int) as u32
}

/// An IP version 4 address.
#[derive(Clone, Copy, Eq, PartialEq, Ord, PartialOrd, Hash, Debug)]
pub struct Ipv4Addr {
    inner: [u8; 4],
}

impl Ipv4Addr {
    /// The four bytes of the address, in wire order.
    pub closed spec fn view(&self) -> Seq<u8> {
        self.inner@
    }

    /// Every address has four bytes.
    pub proof fn lemma_len(&self)
        ensures
            self@.len() == 4,
    {
    }

    /// The address `a.b.c.d`.
    pub fn new(a: u8, b: u8, c: u8, d: u8) -> (r: Self)
        ensures
            r@ == seq![a, b, c, d],
    {
        let r = Self { inner: [a, b, c, d] };
        assert(r.inner@ =~= seq![a, b, c, d]);
        r
    }

    /// The address held in `data`, if it has exactly four bytes.
    pub fn try_from_slice(data: &[u8]) -> (r: Option<Self>)
        ensures
            r is Some <==> data@.len() == 4,
            r is Some ==> r->Some_0@ == data@,
    {
        if data.len() != 4 {
            return None;
        }
        let r = Self { inner: [data[0], data[1], data[2], data[3]] };
        assert(r.inner@ =~= data@);
        Some(r)
    }

    /// The four bytes of the address.
    pub fn octets(&self) -> (r: [u8; 4])
        ensures
            r@ == self@,
    {
        self.inner
    }

    /// The address read as a little-endian number: its first byte is the
    /// least significant.
    pub open spec fn spec_raw(&self) -> u32 {
        raw_of(self@)
    }

    /// The address read as a little-endian number, as the checksum sums it.
    pub fn raw(&self) -> (r: u32)
        ensures
            r == self.spec_raw(),
    {
        let a: u32 = self.inner[0] as u32;
        let b: u32 = self.inner[1] as u32;
        let c: u32 = self.inner[2] as u32;
        let d: u32 = self.inner[3] as u32;
        ((d * 256 + c) * 256 + b) * 256 + a
    }

    /// The address that `raw` stands for.
    pub fn from_raw(raw: u32) -> (r: Self)
        ensures
            r.spec_raw() == raw,
    {
        Self {
            inner: [
                (raw % 256) as u8,
                (raw / 256 % 256) as u8,
                (raw / 65536 % 256) as u8,
                (raw / 16777216) as u8,
            ],
        }
    }

    /// Two addresses with the same number are the same address.
    pub proof fn lemma_raw_injective(a: &Ipv4Addr, b: &Ipv4Addr)
        requires
            a.spec_raw() == b.spec_raw(),
        ensures
            a@ == b@,
    {
        assert(a@ =~= b@);
    }

    /// Whether two addresses are byte for byte the same.
    pub fn same(&self, other: &Ipv4Addr) -> (r: bool)
        ensures
            r <==> self@ == other@,
    {
        proof {
            if self.spec_raw() == other.spec_raw() {
                Self::lemma_raw_injective(self, other);
            }
        }
        self.raw() == other.raw()
    }
}

} // verus!

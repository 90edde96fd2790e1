//! MAC addresses.

use vstd::prelude::*;

verus! {

/// Six bytes as one number, first byte most significant.
pub open spec fn key_of(b: Seq<u8>) -> u64 {
    (((((b[0] as int * 256 + b[1] as int) * 256 + b[2] as int) * 256 + b[3] as int) * 256
        + b[4] as int) * 256 + b[5] as int) as u64
}

/// A 48-bit Ethernet hardware address.
#[derive(Eq, PartialEq, Debug, Clone, Copy, Hash)]
pub struct Mac {
    inner: [u8; 6],
}

impl Mac {
    /// The six bytes of the address, in wire order.
    pub closed spec fn view(&self) -> Seq<u8> {
        self.inner@
    }

    /// Every address has six bytes.
    pub proof fn lemma_len(&self)
        ensures
            self@.len() == 6,
    {
    }

    /// The address that every station listens on.
    pub fn multicast() -> (r: Self)
        ensures
            r@ == seq![0xffu8, 0xffu8, 0xffu8, 0xffu8, 0xffu8, 0xffu8],
    {
        let r = Self { inner: [0xff, 0xff, 0xff, 0xff, 0xff, 0xff] };
        assert(r.inner@ =~= seq![0xffu8, 0xffu8, 0xffu8, 0xffu8, 0xffu8, 0xffu8]);
        r
    }

    /// The address with the given bytes.
    pub fn from_octets(data: [u8; 6]) -> (r: Self)
        ensures
            r@ == data@,
    {
        Self { inner: data }
    }

    /// The address held in the first six bytes of `data`.
    pub fn from_slice(data: &[u8]) -> (r: Self)
        requires
            data@.len() >= 6,
        ensures
            r@ == data@.subrange(0, 6),
    {
        let r = Self { inner: [data[0], data[1], data[2], data[3], data[4], data[5]] };
        assert(r.inner@ =~= data@.subrange(0, 6));
        r
    }

    /// The six bytes of the address.
    pub fn octets(&self) -> (r: [u8; 6])
        ensures
            r@ == self@,
    {
        self.inner
    }

    /// The address as one number, first byte most significant: the key under
    /// which tables hold it.
    pub open spec fn spec_key(&self) -> u64 {
        key_of(self@)
    }

    /// The address as one number, first byte most significant.
    pub fn key(&self) -> (r: u64)
        ensures
            r == self.spec_key(),
            r < 0x1_0000_0000_0000,
    {
        let a: u64 = self.inner[0] as u64;
        let b: u64 = self.inner[1] as u64;
        let c: u64 = self.inner[2] as u64;
        let d: u64 = self.inner[3] as u64;
        let e: u64 = self.inner[4] as u64;
        let f: u64 = self.inner[5] as u64;
        ((((a * 256 + b) * 256 + c) * 256 + d) * 256 + e) * 256 + f
    }

    /// The address that `key` stands for.
    pub fn from_key(key: u64) -> (r: Self)
        requires
            key < 0x1_0000_0000_0000,
        ensures
            r.spec_key() == key,
    {
        let r = Self {
            inner: [
                (key / 0x100_0000_0000) as u8,
                (key / 0x1_0000_0000 % 256) as u8,
                (key / 0x100_0000 % 256) as u8,
                (key / 0x1_0000 % 256) as u8,
                (key / 0x100 % 256) as u8,
                (key % 256) as u8,
            ],
        };
        r
    }

    /// Two addresses with the same key are the same address.
    pub proof fn lemma_key_injective(a: &Mac, b: &Mac)
        requires
            a.spec_key() == b.spec_key(),
        ensures
            a@ == b@,
    {
        assert(a@ =~= b@);
    }

    /// Whether two addresses are byte for byte the same.
    pub fn same(&self, other: &Mac) -> (r: bool)
        ensures
            r <==> self@ == other@,
    {
        proof {
            if self.spec_key() == other.spec_key() {
                Self::lemma_key_injective(self, other);
            }
        }
        self.key() == other.key()
    }
}

} // verus!

//! IPv4 packets and the Internet checksum.

use vstd::prelude::*;
use crate::net::wire::ipaddr::Ipv4Addr;
use crate::net::wire::{
    get16, put16, put_bytes, read_be16, read_ip, write_be16, write_ip, zero_bytes,
};
use crate::net::wire::Packet;

verus! {

/// The length of an IPv4 header without options.
pub const IPV4_MIN_VALID_LENGTH: usize = 20;

/// The protocol that an IPv4 packet carries.
#[derive(Clone, Copy, Debug, PartialEq, Eq, Structural)]
pub enum Ipv4Proto {
    ICMP,
    TCP,
    UDP,
    Unknown,
}

impl Ipv4Proto {
    /// The number that stands for the protocol on the wire.
    pub open spec fn spec_raw(self) -> u8 {
        match self {
            Ipv4Proto::ICMP => 0x01,
            Ipv4Proto::TCP => 0x06,
            Ipv4Proto::UDP => 0x11,
            Ipv4Proto::Unknown => 0x12,
        }
    }

    /// The protocol that a number read from the wire stands for.
    pub open spec fn spec_from_raw(i: u8) -> Ipv4Proto {
        if i == 0x01 {
            Ipv4Proto::ICMP
        } else if i == 0x06 {
            Ipv4Proto::TCP
        } else if i == 0x11 {
            Ipv4Proto::UDP
        } else {
            Ipv4Proto::Unknown
        }
    }

    /// The number that stands for the protocol on the wire.
    pub fn raw(self) -> (r: u8)
        ensures
            r == self.spec_raw(),
    {
        match self {
            Ipv4Proto::ICMP => 0x01,
            Ipv4Proto::TCP => 0x06,
            Ipv4Proto::UDP => 0x11,
            Ipv4Proto::Unknown => 0x12,
        }
    }

    /// The protocol that a number read from the wire stands for; any number
    /// that is not one of the three known ones is unknown.
    pub fn from_raw(i: u8) -> (r: Ipv4Proto)
        ensures
            r == Self::spec_from_raw(i),
    {
        if i == 0x01 {
            Ipv4Proto::ICMP
        } else if i == 0x06 {
            Ipv4Proto::TCP
        } else if i == 0x11 {
            Ipv4Proto::UDP
        } else {
            Ipv4Proto::Unknown
        }
    }

    /// A protocol survives the trip to the wire and back.
    pub proof fn lemma_raw_round_trip(p: Ipv4Proto)
        ensures
            Self::spec_from_raw(p.spec_raw()) == p,
    {
    }
}

/// The 16-bit word whose little-endian encoding is `lo, hi`.
pub open spec fn le16(lo: u8, hi: u8) -> int {
    lo as int + hi as int * 256
}

/// The sum of the first `n` little-endian 16-bit words of `data`.
pub open spec fn word_sum_upto(data: Seq<u8>, n: nat) -> int
    decreases n,
{
    if n == 0 {
        0
    } else {
        word_sum_upto(data, (n - 1) as nat) + le16(data[2 * n - 2], data[2 * n - 1])
    }
}

/// The sum of `data` read as little-endian 16-bit words; a last odd byte
/// counts as it stands.
pub open spec fn word_sum(data: Seq<u8>) -> int {
    word_sum_upto(data, data.len() / 2) + if data.len() % 2 == 1 {
        data[data.len() - 1] as int
    } else {
        0
    }
}

/// What `checksum` returns: the word sum, kept to 32 bits.
pub open spec fn spec_checksum(data: Seq<u8>) -> u32 {
    (word_sum(data) % 0x1_0000_0000) as u32
}

/// A sum with its carries above 16 bits added back in until none is left.
pub open spec fn fold16(sum: int) -> int
    decreases sum,
{
    if sum < 0x1_0000 {
        sum
    } else {
        fold16(sum % 0x1_0000 + sum / 0x1_0000)
    }
}

/// What `u32_to_u16` returns: the one's complement of the folded sum.
pub open spec fn spec_u32_to_u16(sum: u32) -> u16 {
    (0xffff - fold16(sum as int)) as u16
}

/// Folding keeps a non-negative sum within 16 bits, keeps nothing but zero at
/// zero, and keeps the sum's remainder modulo 0xffff.
pub proof fn lemma_fold16(sum: int)
    requires
        0 <= sum,
    ensures
        0 <= fold16(sum) <= 0xffff,
        fold16(sum) == 0 <==> sum == 0,
        fold16(sum) % 0xffff == sum % 0xffff,
    decreases sum,
{
    if sum >= 0x1_0000 {
        let next = sum % 0x1_0000 + sum / 0x1_0000;
        lemma_fold16(next);
        assert(sum == (sum / 0x1_0000) * 0x1_0000 + sum % 0x1_0000);
        assert(sum - next == (sum / 0x1_0000) * 0xffff);
        assert(next % 0xffff == sum % 0xffff) by {
            let q = sum / 0x1_0000;
            vstd::arithmetic::div_mod::lemma_mod_multiples_vanish(q, next, 0xffff);
        }
    }
}

/// The sum of `data` read as little-endian 16-bit words, kept to 32 bits; a
/// last odd byte counts as it stands.
pub fn checksum(data: &[u8]) -> (sum: u32)
    ensures
        sum == spec_checksum(data@),
{
    let n: usize = data.len() / 2;
    let mut acc: u64 = 0;
    let mut i: usize = 0;
    while i < n
        invariant
            n == data.len() / 2,
            i <= n,
            acc < 0x1_0000_0000,
            acc == word_sum_upto(data@, i as nat) % 0x1_0000_0000,
        decreases n - i,
    {
        let word: u64 = data[2 * i] as u64 + data[2 * i + 1] as u64 * 256;
        proof {
            let before = word_sum_upto(data@, i as nat);
            assert(word_sum_upto(data@, (i + 1) as nat) == before + word);
            vstd::arithmetic::div_mod::lemma_add_mod_noop(before, word as int, 0x1_0000_0000);
            vstd::arithmetic::div_mod::lemma_small_mod(word as nat, 0x1_0000_0000);
            vstd::arithmetic::div_mod::lemma_mod_twice(before, 0x1_0000_0000);
            vstd::arithmetic::div_mod::lemma_add_mod_noop(acc as int, word as int, 0x1_0000_0000);
        }
        acc = (acc + word) % 0x1_0000_0000;
        i = i + 1;
    }
    if data.len() % 2 == 1 {
        let last: u64 = data[data.len() - 1] as u64;
        proof {
            let before = word_sum_upto(data@, n as nat);
            vstd::arithmetic::div_mod::lemma_add_mod_noop(before, last as int, 0x1_0000_0000);
            vstd::arithmetic::div_mod::lemma_small_mod(last as nat, 0x1_0000_0000);
            vstd::arithmetic::div_mod::lemma_mod_twice(before, 0x1_0000_0000);
            vstd::arithmetic::div_mod::lemma_add_mod_noop(acc as int, last as int, 0x1_0000_0000);
        }
        acc = (acc + last) % 0x1_0000_0000;
    }
    acc as u32
}

/// Folds a 32-bit sum to 16 bits and returns its one's complement.
pub fn u32_to_u16(sum: u32) -> (r: u16)
    ensures
        r == spec_u32_to_u16(sum),
{
    let mut s: u32 = sum;
    while s / 0x1_0000 != 0
        invariant
            fold16(s as int) == fold16(sum as int),
        decreases s,
    {
        s = s % 0x1_0000 + s / 0x1_0000;
    }
    (0xffff - s) as u16
}

/// The folded sum of a block and the checksum computed for it add up to
/// 0xffff, the one's-complement zero.
pub proof fn lemma_checksum_complements(data: Seq<u8>)
    ensures
        fold16(spec_checksum(data) as int) + spec_u32_to_u16(spec_checksum(data)) == 0xffff,
{
    lemma_fold16(spec_checksum(data) as int);
}

/// A sum to which its own checksum is added folds to 0xffff: this is what a
/// receiver finds when it sums a block that carries a correct checksum.
pub proof fn lemma_checksum_verifies(sum: u32)
    ensures
        fold16(sum as int + spec_u32_to_u16(sum) as int) == 0xffff,
{
    let f = fold16(sum as int);
    lemma_fold16(sum as int);
    let total = sum as int + (0xffff - f);
    lemma_fold16(total);
    assert(total % 0xffff == 0) by {
        vstd::arithmetic::div_mod::lemma_mod_multiples_vanish(1, sum as int - f, 0xffff);
        vstd::arithmetic::div_mod::lemma_sub_mod_noop(sum as int, f, 0xffff);
        vstd::arithmetic::div_mod::lemma_small_mod(0, 0xffff);
    }
    assert(total > 0);
    let g = fold16(total);
    assert(0 < g <= 0xffff);
    assert(g % 0xffff == 0);
    if g < 0xffff {
        vstd::arithmetic::div_mod::lemma_small_mod(g as nat, 0xffff);
    }
}

/// The header that `Ipv4::zeroed` makes: version 4, five header words, the
/// don't-fragment flag, a time to live of 64, ICMP, and the loopback address
/// on both sides.
pub open spec fn blank_header() -> Seq<u8> {
    seq![
        0x45u8, 0u8, 0u8, 0u8, 0u8, 0u8, 0x40u8, 0u8, 64u8, 1u8, 0u8, 0u8, 127u8, 0u8, 0u8, 1u8,
        127u8, 0u8, 0u8, 1u8,
    ]
}

/// `s` with the checksum field of an IPv4 header zeroed.
pub open spec fn without_checksum(s: Seq<u8>) -> Seq<u8> {
    s.update(10, 0u8).update(11, 0u8)
}

/// `s` with the header checksum computed over its first twenty bytes, the
/// field zeroed, and stored low byte first.
pub open spec fn with_checksum(s: Seq<u8>) -> Seq<u8> {
    let c = spec_u32_to_u16(spec_checksum(without_checksum(s).subrange(0, 20)));
    s.update(10, (c % 256) as u8).update(11, (c / 256) as u8)
}

/// An IPv4 packet: a header of twenty bytes, then the payload.
#[derive(Clone, Debug)]
pub struct Ipv4(Vec<u8>);

impl Ipv4 {
    /// The bytes of the packet.
    pub closed spec fn view(&self) -> Seq<u8> {
        self.0@
    }

    /// A packet is never shorter than its header.
    pub open spec fn wf(&self) -> bool {
        self@.len() >= 20
    }

    /// Sets the version nibble and keeps the header length beside it.
    pub fn set_version(&mut self, version: u8)
        requires
            old(self).wf(),
        ensures
            final(self)@ == old(self)@.update(
                0,
                ((version % 16) * 16 + old(self)@[0] % 16) as u8,
            ),
    {
        let low: u8 = self.0[0] % 16;
        self.0[0] = (version % 16) * 16 + low;
    }

    /// Ors the header length, in 32-bit words, into the first byte.
    pub fn set_hdr_len(&mut self, hdr_len: u8)
        requires
            old(self).wf(),
        ensures
            final(self)@ == old(self)@.update(0, old(self)@[0] | hdr_len),
    {
        let cur: u8 = self.0[0];
        self.0[0] = cur | hdr_len;
    }

    /// Sets the DSCP/ECN byte and nothing else.
    pub fn set_dscp_ecn(&mut self, dscp_ecn: u8)
        requires
            old(self).wf(),
        ensures
            final(self)@ == old(self)@.update(1, dscp_ecn),
    {
        self.0[1] = dscp_ecn;
    }

    /// Sets the total-length field to the packet's length, kept to 16 bits.
    pub fn set_len(&mut self)
        requires
            old(self).wf(),
        ensures
            final(self)@ == put16(old(self)@, 2, (old(self)@.len() % 0x1_0000) as u16),
            get16(final(self)@, 2) == (old(self)@.len() % 0x1_0000) as u16,
    {
        let total: u16 = (self.0.len() % 0x1_0000) as u16;
        write_be16(&mut self.0, 2, total);
    }

    /// Sets the identification field and nothing else.
    pub fn set_id(&mut self, id: u16)
        requires
            old(self).wf(),
        ensures
            final(self)@ == put16(old(self)@, 4, id),
            get16(final(self)@, 4) == id,
    {
        write_be16(&mut self.0, 4, id);
    }

    /// Ors `flags` into the byte that holds the flags in its upper three bits.
    pub fn set_flags(&mut self, flags: u8)
        requires
            old(self).wf(),
        ensures
            final(self)@ == old(self)@.update(6, old(self)@[6] | flags),
    {
        let cur: u8 = self.0[6];
        self.0[6] = cur | flags;
    }

    /// Sets the thirteen bits of the fragment offset and keeps the three flag
    /// bits above them.
    pub fn set_offset(&mut self, offset: u16)
        requires
            old(self).wf(),
        ensures
            final(self)@ == old(self)@.update(
                6,
                (old(self)@[6] / 32 * 32 + offset / 256 % 32) as u8,
            ).update(7, (offset % 256) as u8),
    {
        let keep: u8 = self.0[6] / 32 * 32;
        self.0[6] = keep + (offset / 256 % 32) as u8;
        self.0[7] = (offset % 256) as u8;
    }

    /// Sets the time to live and nothing else.
    pub fn set_ttl(&mut self, ttl: u8)
        requires
            old(self).wf(),
        ensures
            final(self)@ == old(self)@.update(8, ttl),
    {
        self.0[8] = ttl;
    }

    /// Sets the protocol and nothing else.
    pub fn set_proto(&mut self, proto: Ipv4Proto)
        requires
            old(self).wf(),
        ensures
            final(self)@ == old(self)@.update(9, proto.spec_raw()),
    {
        self.0[9] = proto.raw();
    }

    /// Computes the header checksum with its own field zeroed and stores it,
    /// low byte first.
    pub fn set_checksum(&mut self)
        requires
            old(self).wf(),
        ensures
            final(self)@ == with_checksum(old(self)@),
    {
        self.0[10] = 0;
        self.0[11] = 0;
        let header = vstd::slice::slice_subrange(self.0.as_slice(), 0, 20);
        let csum: u16 = u32_to_u16(checksum(header));
        self.0[10] = (csum % 256) as u8;
        self.0[11] = (csum / 256) as u8;
        assert(self.0@ =~= with_checksum(old(self)@));
    }

    /// Sets the source address and nothing else.
    pub fn set_sip(&mut self, sip: Ipv4Addr)
        requires
            old(self).wf(),
        ensures
            final(self)@ == put_bytes(old(self)@, 12, sip@),
            final(self)@.subrange(12, 16) == sip@,
    {
        write_ip(&mut self.0, 12, sip);
    }

    /// Sets the destination address and nothing else.
    pub fn set_dip(&mut self, dip: Ipv4Addr)
        requires
            old(self).wf(),
        ensures
            final(self)@ == put_bytes(old(self)@, 16, dip@),
            final(self)@.subrange(16, 20) == dip@,
    {
        write_ip(&mut self.0, 16, dip);
    }

    /// Replaces the payload: the header stays, `data` follows it.
    pub fn set_data(&mut self, data: &[u8])
        requires
            old(self).wf(),
        ensures
            final(self)@ == old(self)@.subrange(0, 20) + data@,
    {
        self.0.truncate(20);
        self.0.extend_from_slice(data);
        assert(self.0@ =~= old(self)@.subrange(0, 20) + data@);
    }

    /// The version: the upper nibble of the first byte.
    pub fn version(&self) -> (r: u8)
        requires
            self.wf(),
        ensures
            r == self@[0] / 16,
    {
        self.0[0] / 16
    }

    /// The header length in 32-bit words: the lower nibble of the first byte.
    pub fn hdr_len(&self) -> (r: u8)
        requires
            self.wf(),
        ensures
            r == self@[0] % 16,
    {
        self.0[0] % 16
    }

    /// The DSCP/ECN byte.
    pub fn dscp_ecn(&self) -> (r: u8)
        requires
            self.wf(),
        ensures
            r == self@[1],
    {
        self.0[1]
    }

    /// The total-length field.
    pub fn len(&self) -> (r: u16)
        requires
            self.wf(),
        ensures
            r == get16(self@, 2),
    {
        read_be16(&self.0, 2)
    }

    /// The identification field.
    pub fn id(&self) -> (r: u16)
        requires
            self.wf(),
        ensures
            r == get16(self@, 4),
    {
        read_be16(&self.0, 4)
    }

    /// The three flag bits.
    pub fn flags(&self) -> (r: u8)
        requires
            self.wf(),
        ensures
            r == self@[6] / 32,
    {
        self.0[6] / 32
    }

    /// The thirteen bits of the fragment offset.
    pub fn offset(&self) -> (r: u16)
        requires
            self.wf(),
        ensures
            r == get16(self@, 6) % 0x2000,
    {
        read_be16(&self.0, 6) % 0x2000
    }

    /// The time to live.
    pub fn ttl(&self) -> (r: u8)
        requires
            self.wf(),
        ensures
            r == self@[8],
    {
        self.0[8]
    }

    /// The protocol that the packet carries.
    pub fn proto(&self) -> (r: Ipv4Proto)
        requires
            self.wf(),
        ensures
            r == Ipv4Proto::spec_from_raw(self@[9]),
    {
        Ipv4Proto::from_raw(self.0[9])
    }

    /// The checksum field, read big-endian.
    pub fn checksum(&self) -> (r: u16)
        requires
            self.wf(),
        ensures
            r == get16(self@, 10),
    {
        read_be16(&self.0, 10)
    }

    /// The source address.
    pub fn sip(&self) -> (r: Ipv4Addr)
        requires
            self.wf(),
        ensures
            r@ == self@.subrange(12, 16),
    {
        read_ip(&self.0, 12)
    }

    /// The destination address.
    pub fn dip(&self) -> (r: Ipv4Addr)
        requires
            self.wf(),
        ensures
            r@ == self@.subrange(16, 20),
    {
        read_ip(&self.0, 16)
    }

    /// The payload: everything behind the header.
    pub fn data(&self) -> (r: &[u8])
        requires
            self.wf(),
        ensures
            r@ == self@.subrange(20, self@.len() as int),
    {
        vstd::slice::slice_subrange(self.0.as_slice(), 20, self.0.len())
    }

    /// The header: the first twenty bytes.
    pub fn header(&self) -> (r: &[u8])
        requires
            self.wf(),
        ensures
            r@ == self@.subrange(0, 20),
    {
        vstd::slice::slice_subrange(self.0.as_slice(), 0, 20)
    }

    /// The bytes of the packet.
    pub fn as_bytes(&self) -> (r: &[u8])
        ensures
            r@ == self@,
    {
        self.0.as_slice()
    }
}

impl Packet for Ipv4 {
    open spec fn wire(&self) -> Seq<u8> {
        self@
    }

    open spec fn accepts(bytes: Seq<u8>) -> bool {
        bytes.len() >= 20
    }

    open spec fn parsed(bytes: Seq<u8>) -> Seq<u8> {
        bytes
    }

    open spec fn blank() -> Seq<u8> {
        blank_header()
    }

    open spec fn stable(&self) -> bool {
        self.wf()
    }

    proof fn lemma_bytes_round_trip(&self) {
    }

    fn zeroed() -> (r: Self) {
        let mut new_v4 = Ipv4(zero_bytes(IPV4_MIN_VALID_LENGTH));
        new_v4.set_version(4);
        new_v4.set_hdr_len(5);
        new_v4.set_flags(0x40);
        new_v4.set_ttl(64);
        new_v4.set_proto(Ipv4Proto::ICMP);
        new_v4.set_sip(Ipv4Addr::new(127, 0, 0, 1));
        new_v4.set_dip(Ipv4Addr::new(127, 0, 0, 1));
        proof {
            assert(0x40u8 | 5u8 == 0x45u8) by (bit_vector);
            assert(0u8 | 0x40u8 == 0x40u8) by (bit_vector);
            assert(new_v4.0@ =~= blank_header());
        }
        new_v4
    }

    fn from_bytes(bytes: Vec<u8>) -> (r: Result<Self, ()>) {
        if bytes.len() < IPV4_MIN_VALID_LENGTH {
            return Err(());
        }
        Ok(Ipv4(bytes))
    }

    fn into_bytes(self) -> (r: Vec<u8>) {
        self.0
    }
}

/// The header that `set_checksum` leaves sums, stored checksum included, to
/// the one's-complement zero.
pub proof fn lemma_stored_checksum_verifies(s: Seq<u8>)
    requires
        s.len() >= 20,
    ensures
        fold16(word_sum(with_checksum(s).subrange(0, 20))) == 0xffff,
{
    let z = without_checksum(s).subrange(0, 20);
    let c = spec_u32_to_u16(spec_checksum(z));
    lemma_word_sum_fits(z);
    lemma_word_sum_update_pair(z, 5, (c % 256) as u8, (c / 256) as u8);
    assert(with_checksum(s).subrange(0, 20) =~= z.update(10, (c % 256) as u8).update(
        11,
        (c / 256) as u8,
    ));
    lemma_checksum_verifies(spec_checksum(z));
}

/// Replacing the word at byte `2 * k` changes the sum of the first `n` words
/// by the difference of the two words, where the word is among them.
pub proof fn lemma_upto_update_pair(s: Seq<u8>, k: int, a: u8, b: u8, n: nat)
    requires
        0 <= k,
        2 * k + 1 < s.len(),
        2 * n <= s.len(),
    ensures
        word_sum_upto(s.update(2 * k, a).update(2 * k + 1, b), n) == word_sum_upto(s, n)
            + if k < n {
            le16(a, b) - le16(s[2 * k], s[2 * k + 1])
        } else {
            0
        },
    decreases n,
{
    if n > 0 {
        lemma_upto_update_pair(s, k, a, b, (n - 1) as nat);
    }
}

/// Replacing one word of a block changes its word sum by the difference of
/// the two words.
pub proof fn lemma_word_sum_update_pair(s: Seq<u8>, k: int, a: u8, b: u8)
    requires
        0 <= k,
        2 * k + 1 < s.len(),
    ensures
        word_sum(s.update(2 * k, a).update(2 * k + 1, b)) == word_sum(s) + le16(a, b)
            - le16(s[2 * k], s[2 * k + 1]),
{
    lemma_upto_update_pair(s, k, a, b, s.len() / 2);
}

/// The sum of the first `n` words of a block is at most `n` times the
/// largest word.
pub proof fn lemma_upto_bound(s: Seq<u8>, n: nat)
    requires
        2 * n <= s.len(),
    ensures
        0 <= word_sum_upto(s, n) <= 0xffff * n,
    decreases n,
{
    if n > 0 {
        lemma_upto_bound(s, (n - 1) as nat);
    }
}

/// The word sum of a block of at most 65536 bytes fits in 31 bits, so that
/// `checksum` returns it as it is.
pub proof fn lemma_word_sum_fits(s: Seq<u8>)
    requires
        s.len() <= 0x1_0000,
    ensures
        0 <= word_sum(s) < 0x8000_0000,
        spec_checksum(s) == word_sum(s),
{
    lemma_upto_bound(s, s.len() / 2);
}

} // verus!

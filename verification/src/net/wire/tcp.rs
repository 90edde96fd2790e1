//! TCP segments.

use vstd::prelude::*;
use crate::net::wire::ipaddr::Ipv4Addr;
use crate::net::wire::ipv4::{
    checksum, fold16, lemma_checksum_verifies, lemma_word_sum_fits, lemma_word_sum_update_pair,
    spec_checksum, spec_u32_to_u16, u32_to_u16, word_sum,
};
use crate::net::wire::{
    get16, get32, put16, put32, read_be16, read_be32, write_be16, write_be32, zero_bytes,
};
use crate::net::wire::Packet;

verus! {

/// The length of a TCP header without options.
pub const TCP_MIN_LEN: usize = 20;

/// The states of a TCP connection.
#[allow(non_camel_case_types)]
#[derive(Debug, Clone, Copy, PartialEq, Eq, Structural)]
pub enum TcpStates {
    TCP_LISTEN,
    TCP_SYNSENT,
    TCP_SYN_RECEIVED,
    TCP_ESTABLISHED,
    TCP_FIN_WAIT_1,
    TCP_FIN_WAIT_2,
    TCP_CLOSE,
    TCP_CLOSE_WAIT,
    TCP_CLOSING,
    TCP_LAST_ACK,
    TCP_TIME_WAIT,
}

/// The control flags of a TCP segment.
#[derive(Clone, Copy, Debug, PartialEq, Eq, Structural)]
pub enum TcpFlag {
    URG,
    ACK,
    PSH,
    RST,
    SYN,
    FIN,
}

impl TcpFlag {
    /// The bit of the flag byte that stands for the flag.
    pub open spec fn spec_bit(self) -> u8 {
        match self {
            TcpFlag::URG => 32,
            TcpFlag::ACK => 16,
            TcpFlag::PSH => 8,
            TcpFlag::RST => 4,
            TcpFlag::SYN => 2,
            TcpFlag::FIN => 1,
        }
    }

    /// The bit of the flag byte that stands for the flag.
    pub fn bit(self) -> (r: u8)
        ensures
            r == self.spec_bit(),
    {
        match self {
            TcpFlag::URG => 32,
            TcpFlag::ACK => 16,
            TcpFlag::PSH => 8,
            TcpFlag::RST => 4,
            TcpFlag::SYN => 2,
            TcpFlag::FIN => 1,
        }
    }
}

/// `byte` with the bits of the first `n` flags of `flags` set.
pub open spec fn with_flags(byte: u8, flags: Seq<TcpFlag>, n: nat) -> u8
    decreases n,
{
    if n == 0 {
        byte
    } else {
        with_flags(byte, flags, (n - 1) as nat) | flags[n - 1].spec_bit()
    }
}

/// The flags set in `byte`, in the order
/// URG, ACK, PSH, RST, SYN, FIN.
pub open spec fn flags_of(byte: u8) -> Seq<TcpFlag> {
    (if byte & 32 != 0 {
        seq![TcpFlag::URG]
    } else {
        Seq::empty()
    }) + (if byte & 16 != 0 {
        seq![TcpFlag::ACK]
    } else {
        Seq::empty()
    }) + (if byte & 8 != 0 {
        seq![TcpFlag::PSH]
    } else {
        Seq::empty()
    }) + (if byte & 4 != 0 {
        seq![TcpFlag::RST]
    } else {
        Seq::empty()
    }) + (if byte & 2 != 0 {
        seq![TcpFlag::SYN]
    } else {
        Seq::empty()
    }) + (if byte & 1 != 0 {
        seq![TcpFlag::FIN]
    } else {
        Seq::empty()
    })
}

/// The header length, in bytes, that the data-offset byte `b` declares.
pub open spec fn spec_hlen(b: u8) -> u8 {
    (b / 16 * 4) as u8
}

/// The sum of the pseudo-header that the TCP checksum covers, as
/// little-endian 16-bit words: both addresses, the protocol number, and the
/// segment length `len`.
pub open spec fn pseudo_sum(src: Seq<u8>, dst: Seq<u8>, len: nat) -> int {
    let l = len % 0x1_0000_0000;
    (src[0] as int + src[1] as int * 256) + (src[2] as int + src[3] as int * 256) + (dst[0] as int
        + dst[1] as int * 256) + (dst[2] as int + dst[3] as int * 256) + 0x0600 + (l / 0x100_0000
        + l / 0x1_0000 % 256 * 256) + (l / 256 % 256 + l % 256 * 256)
}

/// `s` with the TCP checksum computed over the pseudo-header and the whole
/// segment, the field zeroed, and stored low byte first.
pub open spec fn with_tcp_checksum(s: Seq<u8>, src: Seq<u8>, dst: Seq<u8>) -> Seq<u8> {
    let z = s.update(16, 0u8).update(17, 0u8);
    let sum = ((pseudo_sum(src, dst, s.len()) + spec_checksum(z)) % 0x1_0000_0000) as u32;
    let c = spec_u32_to_u16(sum);
    s.update(16, (c % 256) as u8).update(17, (c / 256) as u8)
}

/// A TCP segment: a header of at least twenty bytes, then the payload.
#[derive(Clone, Debug)]
pub struct Tcp(Vec<u8>);

impl Tcp {
    /// The bytes of the segment.
    pub closed spec fn view(&self) -> Seq<u8> {
        self.0@
    }

    /// A segment is never shorter than the fixed header.
    pub open spec fn wf(&self) -> bool {
        self@.len() >= 20
    }

    /// The source port.
    pub fn src(&self) -> (r: u16)
        requires
            self.wf(),
        ensures
            r == get16(self@, 0),
    {
        read_be16(&self.0, 0)
    }

    /// Sets the source port and nothing else.
    pub fn set_src(&mut self, src: u16)
        requires
            old(self).wf(),
        ensures
            final(self)@ == put16(old(self)@, 0, src),
            get16(final(self)@, 0) == src,
    {
        write_be16(&mut self.0, 0, src);
    }

    /// The destination port.
    pub fn dst(&self) -> (r: u16)
        requires
            self.wf(),
        ensures
            r == get16(self@, 2),
    {
        read_be16(&self.0, 2)
    }

    /// Sets the destination port and nothing else.
    pub fn set_dst(&mut self, dst: u16)
        requires
            old(self).wf(),
        ensures
            final(self)@ == put16(old(self)@, 2, dst),
            get16(final(self)@, 2) == dst,
    {
        write_be16(&mut self.0, 2, dst);
    }

    /// The sequence number.
    pub fn seq(&self) -> (r: u32)
        requires
            self.wf(),
        ensures
            r == get32(self@, 4),
    {
        read_be32(&self.0, 4)
    }

    /// Sets the sequence number and nothing else.
    pub fn set_seq(&mut self, seq: u32)
        requires
            old(self).wf(),
        ensures
            final(self)@ == put32(old(self)@, 4, seq),
            get32(final(self)@, 4) == seq,
    {
        write_be32(&mut self.0, 4, seq);
    }

    /// The acknowledgment number.
    pub fn ack(&self) -> (r: u32)
        requires
            self.wf(),
        ensures
            r == get32(self@, 8),
    {
        read_be32(&self.0, 8)
    }

    /// Sets the acknowledgment number and nothing else.
    pub fn set_ack(&mut self, ack: u32)
        requires
            old(self).wf(),
        ensures
            final(self)@ == put32(old(self)@, 8, ack),
            get32(final(self)@, 8) == ack,
    {
        write_be32(&mut self.0, 8, ack);
    }

    /// The flags that are set, in the order
    /// URG, ACK, PSH, RST, SYN, FIN.
    pub fn flaglist(&self) -> (r: Vec<TcpFlag>)
        requires
            self.wf(),
        ensures
            r@ == flags_of(self@[13]),
    {
        let mut flags: Vec<TcpFlag> = Vec::new();
        if self.is_urg() {
            flags.push(TcpFlag::URG);
        }
        if self.is_ack() {
            flags.push(TcpFlag::ACK);
        }
        if self.is_psh() {
            flags.push(TcpFlag::PSH);
        }
        if self.is_rst() {
            flags.push(TcpFlag::RST);
        }
        if self.is_syn() {
            flags.push(TcpFlag::SYN);
        }
        if self.is_fin() {
            flags.push(TcpFlag::FIN);
        }
        assert(flags@ =~= flags_of(self@[13]));
        flags
    }

    /// The flag byte.
    pub fn flags(&self) -> (r: u8)
        requires
            self.wf(),
        ensures
            r == self@[13],
    {
        self.0[13]
    }

    /// Whether URG is set.
    pub fn is_urg(&self) -> (r: bool)
        requires
            self.wf(),
        ensures
            r == (self@[13] & 32 != 0),
    {
        self.0[13] & 32 != 0
    }

    /// Whether ACK is set.
    pub fn is_ack(&self) -> (r: bool)
        requires
            self.wf(),
        ensures
            r == (self@[13] & 16 != 0),
    {
        self.0[13] & 16 != 0
    }

    /// Whether PSH is set.
    pub fn is_psh(&self) -> (r: bool)
        requires
            self.wf(),
        ensures
            r == (self@[13] & 8 != 0),
    {
        self.0[13] & 8 != 0
    }

    /// Whether RST is set.
    pub fn is_rst(&self) -> (r: bool)
        requires
            self.wf(),
        ensures
            r == (self@[13] & 4 != 0),
    {
        self.0[13] & 4 != 0
    }

    /// Whether SYN is set.
    pub fn is_syn(&self) -> (r: bool)
        requires
            self.wf(),
        ensures
            r == (self@[13] & 2 != 0),
    {
        self.0[13] & 2 != 0
    }

    /// Whether FIN is set.
    pub fn is_fin(&self) -> (r: bool)
        requires
            self.wf(),
        ensures
            r == (self@[13] & 1 != 0),
    {
        self.0[13] & 1 != 0
    }

    /// Sets the bit of each flag in `flags` and clears none.
    pub fn set_flags(&mut self, flags: &[TcpFlag])
        requires
            old(self).wf(),
        ensures
            final(self)@ == old(self)@.update(
                13,
                with_flags(old(self)@[13], flags@, flags@.len()),
            ),
    {
        let n: usize = flags.len();
        let mut i: usize = 0;
        while i < n
            invariant
                n == flags@.len(),
                i <= n,
                old(self)@.len() >= 20,
                self.0@ == old(self)@.update(13, with_flags(old(self)@[13], flags@, i as nat)),
            decreases n - i,
        {
            let cur: u8 = self.0[13];
            self.0[13] = cur | flags[i].bit();
            i = i + 1;
            assert(self.0@ =~= old(self)@.update(
                13,
                with_flags(old(self)@[13], flags@, i as nat),
            ));
        }
    }

    /// Clears every flag.
    pub fn clear_flags(&mut self)
        requires
            old(self).wf(),
        ensures
            final(self)@ == old(self)@.update(13, 0u8),
    {
        self.0[13] = 0;
    }

    /// The receive window that the sender advertises.
    pub fn window(&self) -> (r: u16)
        requires
            self.wf(),
        ensures
            r == get16(self@, 14),
    {
        read_be16(&self.0, 14)
    }

    /// Sets the window and nothing else.
    pub fn set_window(&mut self, window: u16)
        requires
            old(self).wf(),
        ensures
            final(self)@ == put16(old(self)@, 14, window),
            get16(final(self)@, 14) == window,
    {
        write_be16(&mut self.0, 14, window);
    }

    /// The checksum field, read big-endian.
    pub fn checksum(&self) -> (r: u16)
        requires
            self.wf(),
        ensures
            r == get16(self@, 16),
    {
        read_be16(&self.0, 16)
    }

    /// The urgent pointer.
    pub fn urgent_ptr(&self) -> (r: u16)
        requires
            self.wf(),
        ensures
            r == get16(self@, 18),
    {
        read_be16(&self.0, 18)
    }

    /// Computes the checksum over the pseudo-header of `src` and `dst` and
    /// the whole segment, with its own field zeroed, and stores it, low byte
    /// first.
    pub fn set_checksum(&mut self, src: Ipv4Addr, dst: Ipv4Addr)
        requires
            old(self).wf(),
        ensures
            final(self)@ == with_tcp_checksum(old(self)@, src@, dst@),
    {
        proof {
            src.lemma_len();
            dst.lemma_len();
        }
        self.0[16] = 0;
        self.0[17] = 0;
        let s = src.octets();
        let d = dst.octets();
        let l: u64 = (self.0.len() as u64) % 0x1_0000_0000;
        let pseudo: u64 = (s[0] as u64 + s[1] as u64 * 256) + (s[2] as u64 + s[3] as u64 * 256) + (
        d[0] as u64 + d[1] as u64 * 256) + (d[2] as u64 + d[3] as u64 * 256) + 0x0600 + (l
            / 0x100_0000 + l / 0x1_0000 % 256 * 256) + (l / 256 % 256 + l % 256 * 256);
        let body: u64 = checksum(self.0.as_slice()) as u64;
        let sum: u32 = ((pseudo + body) % 0x1_0000_0000) as u32;
        let csum: u16 = u32_to_u16(sum);
        self.0[16] = (csum % 256) as u8;
        self.0[17] = (csum / 256) as u8;
        assert(self.0@ =~= with_tcp_checksum(old(self)@, src@, dst@));
    }

    /// Whether the header length that the segment declares lies within it.
    pub fn has_valid_hlen(&self) -> (r: bool)
        requires
            self.wf(),
        ensures
            r == (spec_hlen(self@[12]) <= self@.len()),
    {
        (self.hlen() as usize) <= self.0.len()
    }

    /// The number of payload bytes: what follows the declared header.
    pub fn dlen(&self) -> (r: usize)
        requires
            self.wf(),
            spec_hlen(self@[12]) <= self@.len(),
        ensures
            r == self@.len() - spec_hlen(self@[12]),
    {
        self.0.len() - self.hlen() as usize
    }

    /// The payload: what follows the declared header.
    pub fn data(&self) -> (r: &[u8])
        requires
            self.wf(),
            spec_hlen(self@[12]) <= self@.len(),
        ensures
            r@ == self@.subrange(spec_hlen(self@[12]) as int, self@.len() as int),
    {
        vstd::slice::slice_subrange(self.0.as_slice(), self.hlen() as usize, self.0.len())
    }

    /// Appends `item` to the segment.
    pub fn set_data(&mut self, item: Vec<u8>)
        ensures
            final(self)@ == old(self)@ + item@,
    {
        self.0.extend_from_slice(item.as_slice());
        assert(self.0@ =~= old(self)@ + item@);
    }

    /// Ors a header length of `len` bytes, as a count of 32-bit words, into
    /// the upper nibble of the data-offset byte.
    pub fn set_hlen(&mut self, len: u8)
        requires
            old(self).wf(),
        ensures
            final(self)@ == old(self)@.update(12, old(self)@[12] | ((len / 4 % 16 * 16) as u8)),
    {
        let cur: u8 = self.0[12];
        self.0[12] = cur | (len / 4 % 16 * 16);
    }

    /// The header length in bytes that the segment declares.
    pub fn hlen(&self) -> (r: u8)
        requires
            self.wf(),
        ensures
            r == spec_hlen(self@[12]),
    {
        self.0[12] / 16 * 4
    }

    /// The length of the segment in bytes.
    pub fn len(&self) -> (r: usize)
        ensures
            r == self@.len(),
    {
        self.0.len()
    }

    /// The bytes of the segment.
    pub fn as_bytes(&self) -> (r: &[u8])
        ensures
            r@ == self@,
    {
        self.0.as_slice()
    }

    /// A copy of the segment.
    pub fn duplicate(&self) -> (r: Tcp)
        ensures
            r@ == self@,
    {
        Tcp(vstd::slice::slice_to_vec(self.0.as_slice()))
    }
}

impl Packet for Tcp {
    open spec fn wire(&self) -> Seq<u8> {
        self@
    }

    open spec fn accepts(bytes: Seq<u8>) -> bool {
        bytes.len() >= 20
    }

    open spec fn parsed(bytes: Seq<u8>) -> Seq<u8> {
        bytes
    }

    open spec fn blank() -> Seq<u8> {
        Seq::new(20, |i: int| 0u8)
    }

    open spec fn stable(&self) -> bool {
        self.wf()
    }

    proof fn lemma_bytes_round_trip(&self) {
    }

    fn zeroed() -> (r: Self) {
        Tcp(zero_bytes(TCP_MIN_LEN))
    }

    fn from_bytes(bytes: Vec<u8>) -> (r: Result<Self, ()>) {
        if bytes.len() < TCP_MIN_LEN {
            return Err(());
        }
        Ok(Tcp(bytes))
    }

    fn into_bytes(self) -> (r: Vec<u8>) {
        self.0
    }
}

/// A segment that carries the checksum computed for it sums, together with
/// its pseudo-header, to the one's-complement zero. This holds of segments up
/// to 65535 bytes, the longest that an IPv4 packet carries.
pub proof fn lemma_tcp_checksum_verifies(s: Seq<u8>, src: Seq<u8>, dst: Seq<u8>)
    requires
        20 <= s.len() < 0x1_0000,
        src.len() == 4,
        dst.len() == 4,
    ensures
        fold16(pseudo_sum(src, dst, s.len()) + word_sum(with_tcp_checksum(s, src, dst)))
            == 0xffff,
{
    let z = s.update(16, 0u8).update(17, 0u8);
    lemma_word_sum_fits(z);
    let sum = ((pseudo_sum(src, dst, s.len()) + spec_checksum(z)) % 0x1_0000_0000) as u32;
    assert(0 <= pseudo_sum(src, dst, s.len()) <= 6 * 0xffff);
    assert(sum == pseudo_sum(src, dst, s.len()) + word_sum(z));
    let c = spec_u32_to_u16(sum);
    lemma_word_sum_update_pair(z, 8, (c % 256) as u8, (c / 256) as u8);
    assert(with_tcp_checksum(s, src, dst) =~= z.update(16, (c % 256) as u8).update(
        17,
        (c / 256) as u8,
    ));
    lemma_checksum_verifies(sum);
}

} // verus!

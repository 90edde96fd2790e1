//! The TCP connection state machine.

use vstd::prelude::*;
use core::task::Waker;
use crate::net::arp::Arp;
use crate::net::ip::{egress_framed, IpLayer};
use crate::net::wire::eth2::Ether2Frame;
use crate::net::wire::ipv4::Ipv4Proto;
use crate::sync::queue::wake;
use crate::net::socks::{Ports, ReadProgress};
use crate::net::table::{table_entries, table_get, table_insert, table_new, KeyTable};
use crate::net::wire::ipaddr::{raw_of, Ipv4Addr};
use crate::net::wire::ipv4::Ipv4;
use crate::net::wire::mac::Mac;
use crate::net::wire::tcp::{spec_hlen, with_flags, with_tcp_checksum, Tcp, TcpFlag, TcpStates};
use crate::net::wire::{get16, get32, put16, put32};
use crate::net::wire::Packet;

verus! {

/// The receive window that a new connection advertises.
pub const INITIAL_WINDOW: u16 = 1024;

/// What a connection is, for the contracts: its state, its two endpoints, the
/// send and receive variables, the bytes received and not yet read, and
/// whether a reader waits for more.
pub struct ConnView {
    pub state: TcpStates,
    pub remote_ip: Seq<u8>,
    pub remote_port: u16,
    pub local_ip: Seq<u8>,
    pub local_port: u16,
    pub snd_una: u32,
    pub snd_nxt: u32,
    pub snd_wnd: u32,
    pub snd_up: bool,
    pub snd_wl1: u32,
    pub snd_wl2: u32,
    pub snd_iss: u32,
    pub rcv_nxt: u32,
    pub rcv_wnd: u16,
    pub rcv_up: bool,
    pub rcv_irs: u32,
    pub data: Seq<u8>,
    pub has_waker: bool,
    pub last_ipv4_id: u16,
    pub mac: Seq<u8>,
    pub dst_mac: Seq<u8>,
}

/// What a connection answers to a segment.
pub enum Reply {
    /// No segment is sent.
    Nothing,
    /// An acknowledgment that carries the connection's send and receive
    /// positions.
    Ack,
    /// A reset made of the offending segment.
    Reset,
}

/// Whether the flag with bit `bit` is set in segment `s`.
pub open spec fn flag(s: Seq<u8>, bit: u8) -> bool {
    s[13] & bit != 0
}

/// The payload of segment `s`: what follows the header length it declares.
pub open spec fn payload(s: Seq<u8>) -> Seq<u8> {
    s.subrange(spec_hlen(s[12]) as int, s.len() as int)
}

/// A segment is malformed where it declares a header longer than itself.
pub open spec fn malformed(s: Seq<u8>) -> bool {
    spec_hlen(s[12]) > s.len()
}

/// A bare acknowledgment: ACK without PSH, RST, SYN or FIN, and without
/// payload. The urgent flag counts for nothing, here as everywhere.
pub open spec fn bare_ack(s: Seq<u8>) -> bool {
    &&& flag(s, 16)
    &&& !flag(s, 8)
    &&& !flag(s, 4)
    &&& !flag(s, 2)
    &&& !flag(s, 1)
    &&& payload(s).len() == 0
}

/// Whether `ack` acknowledges something new: it lies in `(una, nxt]`, counted
/// modulo 2^32 from `una`.
pub open spec fn acks_new(una: u32, nxt: u32, ack: u32) -> bool {
    0 < ack.wrapping_sub(una) <= nxt.wrapping_sub(una)
}

/// The connection's send positions are in order: what is unacknowledged ends
/// less than half the sequence space before what is sent next.
pub open spec fn send_ordered(c: ConnView) -> bool {
    c.snd_nxt.wrapping_sub(c.snd_una) < 0x8000_0000
}

/// A segment of twenty bytes with the given ports, positions, flag byte and
/// window, a header length of twenty, and everything else zero.
pub open spec fn plain_segment(
    src_port: u16,
    dst_port: u16,
    seq: u32,
    ack: u32,
    flags: u8,
    window: u16,
) -> Seq<u8> {
    put16(
        put32(put32(put16(put16(Seq::new(20, |i: int| 0u8), 0, src_port), 2, dst_port), 4, seq), 8, ack)
            .update(12, 0x50u8).update(13, flags),
        14,
        window,
    )
}

/// The acknowledgment that connection `c` sends to the peer at `sip` from
/// `dip`: from the local port to the remote one, with the connection's send
/// and receive positions and its window.
pub open spec fn ack_segment(c: ConnView, sip: Seq<u8>, dip: Seq<u8>) -> Seq<u8> {
    with_tcp_checksum(
        plain_segment(c.local_port, c.remote_port, c.snd_nxt, c.rcv_nxt, 16, c.rcv_wnd),
        sip,
        dip,
    )
}

/// The reset that connection `c` makes of segment `s`: the segment itself
/// with the ports of the connection, RST as its only flag, and both positions
/// zero.
pub open spec fn reset_segment(c: ConnView, s: Seq<u8>, sip: Seq<u8>, dip: Seq<u8>) -> Seq<u8> {
    with_tcp_checksum(
        put32(put32(put16(put16(s, 2, c.remote_port), 0, c.local_port).update(13, 4u8), 4, 0), 8, 0),
        sip,
        dip,
    )
}

/// The reset that answers an acknowledgment `s` for which no connection exists:
/// back to the sender's port, at the position that the segment acknowledges.
pub open spec fn refusal_segment(s: Seq<u8>, sip: Seq<u8>, dip: Seq<u8>) -> Seq<u8> {
    with_tcp_checksum(plain_segment(get16(s, 2), get16(s, 0), get32(s, 8), 0, 4, 0), sip, dip)
}

/// The SYN,ACK that answers the SYN `s` of a new connection.
pub open spec fn syn_ack_segment(c: ConnView, sip: Seq<u8>, dip: Seq<u8>) -> Seq<u8> {
    with_tcp_checksum(
        plain_segment(c.local_port, c.remote_port, c.snd_iss, c.rcv_nxt, 18, 0),
        sip,
        dip,
    )
}

/// The data segment that carries `item` on connection `c`: PSH,ACK at the
/// connection's positions, then the bytes.
pub open spec fn data_segment(c: ConnView, item: Seq<u8>) -> Seq<u8> {
    with_tcp_checksum(
        plain_segment(c.local_port, c.remote_port, c.snd_nxt, c.rcv_nxt, 24, c.rcv_wnd) + item,
        c.remote_ip,
        c.local_ip,
    )
}

/// What the first segment on a new 4-tuple leads to.
pub enum Opening {
    /// The segment is dropped.
    Dropped,
    /// The segment is answered by a reset and no connection is made.
    Refused,
    /// A connection is made and the segment answered by SYN,ACK.
    Accepted,
}

/// How the first segment `s` on a new 4-tuple is treated: a reset is
/// dropped, an acknowledgment without SYN refused, anything else without SYN
/// dropped, and a SYN accepted.
pub open spec fn opening(s: Seq<u8>) -> Opening {
    if flag(s, 4) {
        Opening::Dropped
    } else if flag(s, 16) && !flag(s, 2) {
        Opening::Refused
    } else if !flag(s, 2) {
        Opening::Dropped
    } else {
        Opening::Accepted
    }
}

/// The connection that the SYN `s`, carried by IPv4 packet `ip`, opens.
pub open spec fn opened(s: Seq<u8>, ip: Seq<u8>, mac: Seq<u8>, dst_mac: Seq<u8>) -> ConnView {
    ConnView {
        state: TcpStates::TCP_SYN_RECEIVED,
        remote_ip: ip.subrange(12, 16),
        remote_port: get16(s, 0),
        local_ip: ip.subrange(16, 20),
        local_port: get16(s, 2),
        snd_una: 0,
        snd_nxt: 1,
        snd_wnd: 1024,
        snd_up: false,
        snd_wl1: 0,
        snd_wl2: 0,
        snd_iss: 0,
        rcv_nxt: get32(s, 4).wrapping_add(1),
        rcv_wnd: 1024,
        rcv_up: false,
        rcv_irs: get32(s, 4),
        data: Seq::empty(),
        has_waker: false,
        last_ipv4_id: get16(ip, 4),
        mac: mac,
        dst_mac: dst_mac,
    }
}

/// A connection after a reset arrived: closed from SYN-RECEIVED, ESTABLISHED,
/// FIN-WAIT-1, FIN-WAIT-2 and CLOSE-WAIT, unchanged otherwise.
pub open spec fn step_rst(c: ConnView) -> ConnView {
    match c.state {
        TcpStates::TCP_SYN_RECEIVED
        | TcpStates::TCP_ESTABLISHED
        | TcpStates::TCP_FIN_WAIT_1
        | TcpStates::TCP_FIN_WAIT_2
        | TcpStates::TCP_CLOSE_WAIT => ConnView { state: TcpStates::TCP_CLOSE, ..c },
        _ => c,
    }
}

/// A connection after the acknowledgment field of `s` was processed.
///
/// A connection in SYN-RECEIVED becomes established. In every state but
/// CLOSED, an acknowledgment of something new moves the unacknowledged
/// position to it, takes the peer's window where the segment is no older
/// than the one the window was last taken from, and moves FIN-WAIT-1 on to
/// FIN-WAIT-2.
pub open spec fn step_ack(c: ConnView, s: Seq<u8>) -> ConnView {
    let c0 = if c.state == TcpStates::TCP_SYN_RECEIVED {
        ConnView { state: TcpStates::TCP_ESTABLISHED, ..c }
    } else {
        c
    };
    if c0.state != TcpStates::TCP_CLOSE && acks_new(c0.snd_una, c0.snd_nxt, get32(s, 8)) {
        let fresh = c0.snd_wl1 < get32(s, 4) || (c0.snd_wl1 == get32(s, 4) && c0.snd_wl2 <= get32(
            s,
            8,
        ));
        ConnView {
            snd_una: get32(s, 8),
            snd_wnd: if fresh {
                get16(s, 14) as u32
            } else {
                c0.snd_wnd
            },
            snd_wl1: if fresh {
                get32(s, 4)
            } else {
                c0.snd_wl1
            },
            snd_wl2: if fresh {
                get32(s, 8)
            } else {
                c0.snd_wl2
            },
            state: if c0.state == TcpStates::TCP_FIN_WAIT_1 {
                TcpStates::TCP_FIN_WAIT_2
            } else {
                c0.state
            },
            ..c0
        }
    } else {
        c0
    }
}

/// A connection in SYN-SENT after a segment `s` that is no reset, and what it
/// answers.
///
/// An acknowledgment of what was not sent is dropped; any other is processed
/// as in every state. A SYN sets the receive positions; where the SYN sent is
/// acknowledged by then, the connection is established and acknowledges.
pub open spec fn step_syn_sent(c: ConnView, s: Seq<u8>) -> (ConnView, Reply) {
    if flag(s, 16) && (get32(s, 8) <= c.snd_iss || c.snd_nxt < get32(s, 8)) {
        (c, Reply::Nothing)
    } else {
        let c0 = if flag(s, 16) {
            step_ack(c, s)
        } else {
            c
        };
        if flag(s, 2) {
            let c1 = ConnView {
                rcv_nxt: get32(s, 4).wrapping_add(1),
                rcv_irs: get32(s, 4),
                ..c0
            };
            if c1.snd_una > c1.snd_iss {
                (ConnView { state: TcpStates::TCP_ESTABLISHED, ..c1 }, Reply::Ack)
            } else {
                (c1, Reply::Nothing)
            }
        } else {
            (c0, Reply::Nothing)
        }
    }
}

/// Whether a connection in state `st` takes payload.
pub open spec fn takes_data(st: TcpStates) -> bool {
    st == TcpStates::TCP_ESTABLISHED || st == TcpStates::TCP_FIN_WAIT_1 || st
        == TcpStates::TCP_FIN_WAIT_2
}

/// A connection after a FIN arrived.
pub open spec fn step_fin(c: ConnView) -> ConnView {
    match c.state {
        TcpStates::TCP_SYN_RECEIVED | TcpStates::TCP_ESTABLISHED => ConnView {
            state: TcpStates::TCP_CLOSE_WAIT,
            ..c
        },
        TcpStates::TCP_FIN_WAIT_1 => ConnView { state: TcpStates::TCP_FIN_WAIT_2, ..c },
        _ => c,
    }
}

/// The general processing of a segment `s` that is no reset: its SYN,
/// acknowledgment, payload and FIN, in that order.
///
/// A SYN closes the connection and is answered by a reset. In-order payload
/// is taken and acknowledged, and the segment is done with; payload out of
/// order is dropped with the segment.
pub open spec fn step_general(c: ConnView, s: Seq<u8>) -> (ConnView, Reply) {
    if flag(s, 2) {
        (ConnView { state: TcpStates::TCP_CLOSE, ..c }, Reply::Reset)
    } else {
        let c1 = if flag(s, 16) {
            step_ack(c, s)
        } else {
            c
        };
        if payload(s).len() > 0 && takes_data(c1.state) {
            if get32(s, 4) == c1.rcv_nxt {
                (
                    ConnView {
                        data: c1.data + payload(s),
                        rcv_nxt: c1.rcv_nxt.wrapping_add((payload(s).len() % 0x1_0000_0000) as u32),
                        has_waker: false,
                        ..c1
                    },
                    Reply::Ack,
                )
            } else {
                (c1, Reply::Nothing)
            }
        } else if flag(s, 1) {
            (step_fin(c1), Reply::Nothing)
        } else {
            (c1, Reply::Nothing)
        }
    }
}

/// The connection after segment `s` arrived, and what it answers.
///
/// A malformed segment changes nothing. A reset is never answered: it
/// closes the connection in the five states that `step_rst` names and is
/// dropped in the others. An established connection processes a bare
/// acknowledgment and answers it with one of its own. A connection in
/// SYN-SENT is treated apart; everything else goes through the general
/// processing.
pub open spec fn step(c: ConnView, s: Seq<u8>) -> (ConnView, Reply) {
    if malformed(s) {
        (c, Reply::Nothing)
    } else if flag(s, 4) {
        (step_rst(c), Reply::Nothing)
    } else if c.state == TcpStates::TCP_ESTABLISHED && bare_ack(s) {
        (step_ack(c, s), Reply::Ack)
    } else if c.state == TcpStates::TCP_SYNSENT {
        step_syn_sent(c, s)
    } else {
        step_general(c, s)
    }
}

/// One TCP connection: its state, its 4-tuple, the send and receive
/// variables, and the bytes received and not yet read.
pub struct TcpConnection {
    state: TcpStates,
    quad: (Ipv4Addr, u16, Ipv4Addr, u16),
    snd_una: u32,
    snd_nxt: u32,
    snd_wnd: u32,
    snd_up: bool,
    snd_wl1: u32,
    snd_wl2: u32,
    snd_iss: u32,
    rcv_nxt: u32,
    rcv_wnd: u16,
    rcv_up: bool,
    rcv_irs: u32,
    data: Vec<u8>,
    waker: Option<Waker>,
    last_ipv4_id: u16,
    mac: Mac,
    dst_mac: Mac,
}

/// The flag byte of a segment on which `flags` were set from zero.
proof fn lemma_flag_bytes()
    ensures
        with_flags(0, seq![TcpFlag::ACK], 1) == 16,
        with_flags(0, seq![TcpFlag::RST], 1) == 4,
        with_flags(0, seq![TcpFlag::SYN, TcpFlag::ACK], 2) == 18,
        with_flags(0, seq![TcpFlag::PSH, TcpFlag::ACK], 2) == 24,
        0u8 | 0x50u8 == 0x50u8,
{
    reveal_with_fuel(with_flags, 3);
    assert(0u8 | 16u8 == 16u8) by (bit_vector);
    assert(0u8 | 4u8 == 4u8) by (bit_vector);
    assert((0u8 | 2u8) | 16u8 == 18u8) by (bit_vector);
    assert((0u8 | 8u8) | 16u8 == 24u8) by (bit_vector);
    assert(0u8 | 0x50u8 == 0x50u8) by (bit_vector);
}

/// A segment of twenty bytes with the given fields and no checksum yet.
fn segment(src_port: u16, dst_port: u16, seq: u32, ack: u32, flags: &[TcpFlag], window: u16) -> (r:
    Tcp)
    ensures
        r@ == plain_segment(
            src_port,
            dst_port,
            seq,
            ack,
            with_flags(0, flags@, flags@.len()),
            window,
        ),
{
    let mut packet = Tcp::zeroed();
    packet.set_dst(dst_port);
    packet.set_src(src_port);
    packet.set_flags(flags);
    packet.set_seq(seq);
    packet.set_ack(ack);
    packet.set_window(window);
    packet.set_hlen(20);
    proof {
        lemma_flag_bytes();
        assert(packet@ =~= plain_segment(
            src_port,
            dst_port,
            seq,
            ack,
            with_flags(0, flags@, flags@.len()),
            window,
        ));
    }
    packet
}

impl TcpConnection {
    /// What the connection is, for the contracts.
    pub closed spec fn view(&self) -> ConnView {
        ConnView {
            state: self.state,
            remote_ip: self.quad.0@,
            remote_port: self.quad.1,
            local_ip: self.quad.2@,
            local_port: self.quad.3,
            snd_una: self.snd_una,
            snd_nxt: self.snd_nxt,
            snd_wnd: self.snd_wnd,
            snd_up: self.snd_up,
            snd_wl1: self.snd_wl1,
            snd_wl2: self.snd_wl2,
            snd_iss: self.snd_iss,
            rcv_nxt: self.rcv_nxt,
            rcv_wnd: self.rcv_wnd,
            rcv_up: self.rcv_up,
            rcv_irs: self.rcv_irs,
            data: self.data@,
            has_waker: self.waker is Some,
            last_ipv4_id: self.last_ipv4_id,
            mac: self.mac@,
            dst_mac: self.dst_mac@,
        }
    }

    /// Treats the first segment on a new 4-tuple.
    ///
    /// A SYN opens a connection in SYN-RECEIVED and is answered by SYN,ACK. An
    /// acknowledgment without SYN is refused with a reset. Anything else,
    /// and any reset, is dropped.
    pub fn accept(tcp: Tcp, ip: &Ipv4, mac: Mac, dst_mac: Mac) -> (r: Result<
        (Self, Tcp),
        Option<Tcp>,
    >)
        requires
            tcp.wf(),
            ip.wf(),
        ensures
            match opening(tcp@) {
                Opening::Dropped => r == Err::<(Self, Tcp), Option<Tcp>>(None),
                Opening::Refused => r is Err && r->Err_0 is Some && r->Err_0->Some_0@
                    == refusal_segment(tcp@, ip@.subrange(12, 16), ip@.subrange(16, 20)),
                Opening::Accepted => r is Ok && r->Ok_0.0@ == opened(tcp@, ip@, mac@, dst_mac@)
                    && r->Ok_0.1@ == syn_ack_segment(
                    r->Ok_0.0@,
                    ip@.subrange(12, 16),
                    ip@.subrange(16, 20),
                ),
            },
    {
        if tcp.is_rst() {
            return Err(None);
        }
        if tcp.is_ack() && !tcp.is_syn() {
            let flags = [TcpFlag::RST];
            proof {
                assert(flags@ =~= seq![TcpFlag::RST]);
                lemma_flag_bytes();
            }
            let mut packet = segment(tcp.dst(), tcp.src(), tcp.ack(), 0, flags.as_slice(), 0);
            packet.set_checksum(ip.sip(), ip.dip());
            return Err(Some(packet));
        }
        if !tcp.is_syn() {
            return Err(None);
        }
        let this = TcpConnection {
            state: TcpStates::TCP_SYN_RECEIVED,
            snd_iss: 0,
            snd_una: 0,
            snd_nxt: 1,
            snd_wnd: 1024,
            snd_up: false,
            snd_wl1: 0,
            snd_wl2: 0,
            rcv_irs: tcp.seq(),
            rcv_nxt: tcp.seq().wrapping_add(1),
            rcv_wnd: INITIAL_WINDOW,
            rcv_up: false,
            quad: (ip.sip(), tcp.src(), ip.dip(), tcp.dst()),
            data: Vec::new(),
            waker: None,
            last_ipv4_id: ip.id(),
            mac,
            dst_mac,
        };
        let flags = [TcpFlag::SYN, TcpFlag::ACK];
        proof {
            assert(flags@ =~= seq![TcpFlag::SYN, TcpFlag::ACK]);
            lemma_flag_bytes();
        }
        let mut packet = segment(
            this.quad.3,
            this.quad.1,
            this.snd_iss,
            this.rcv_nxt,
            flags.as_slice(),
            0,
        );
        packet.set_checksum(ip.sip(), ip.dip());
        Ok((this, packet))
    }

    /// Treats a segment that arrived for this connection, and returns the
    /// segment to send back, if any.
    ///
    /// Where payload is taken, a reader that waits is woken.
    pub fn handle_packet(&mut self, tcp: Tcp, ip: &Ipv4) -> (r: Option<Tcp>)
        requires
            tcp.wf(),
            ip.wf(),
        ensures
            final(self)@ == step(old(self)@, tcp@).0,
            match step(old(self)@, tcp@).1 {
                Reply::Nothing => r is None,
                Reply::Ack => r is Some && r->Some_0@ == ack_segment(
                    final(self)@,
                    ip@.subrange(12, 16),
                    ip@.subrange(16, 20),
                ),
                Reply::Reset => r is Some && r->Some_0@ == reset_segment(
                    final(self)@,
                    tcp@,
                    ip@.subrange(12, 16),
                    ip@.subrange(16, 20),
                ),
            },
    {
        if !tcp.has_valid_hlen() {
            return None;
        }
        let plen: usize = tcp.dlen();
        if tcp.is_rst() {
            match self.state {
                TcpStates::TCP_SYN_RECEIVED
                | TcpStates::TCP_ESTABLISHED
                | TcpStates::TCP_FIN_WAIT_1
                | TcpStates::TCP_FIN_WAIT_2
                | TcpStates::TCP_CLOSE_WAIT => {
                    self.state = TcpStates::TCP_CLOSE;
                },
                _ => {},
            }
            return None;
        }
        if self.state == TcpStates::TCP_ESTABLISHED {
            if tcp.is_ack() && !tcp.is_psh() && !tcp.is_syn() && !tcp.is_fin() && plen == 0 {
                self.process_ack(&tcp);
                return Some(self.ack(ip));
            }
        }
        if self.state == TcpStates::TCP_SYNSENT {
            if tcp.is_ack() {
                if tcp.ack() <= self.snd_iss || self.snd_nxt < tcp.ack() {
                    return None;
                }
            }
            if tcp.is_ack() {
                self.process_ack(&tcp);
            }
            if tcp.is_syn() {
                self.rcv_nxt = tcp.seq().wrapping_add(1);
                self.rcv_irs = tcp.seq();
                if self.snd_una > self.snd_iss {
                    self.state = TcpStates::TCP_ESTABLISHED;
                    return Some(self.ack(ip));
                }
            }
            return None;
        }
        if tcp.is_syn() {
            self.state = TcpStates::TCP_CLOSE;
            return Some(self.reset(tcp, ip));
        }
        if tcp.is_ack() {
            self.process_ack(&tcp);
        }
        if plen > 0 {
            if self.state == TcpStates::TCP_ESTABLISHED || self.state == TcpStates::TCP_FIN_WAIT_1
                || self.state == TcpStates::TCP_FIN_WAIT_2 {
                if tcp.seq() == self.rcv_nxt {
                    self.data.extend_from_slice(tcp.data());
                    assert(self.data@ =~= old(self).data@ + payload(tcp@));
                    self.rcv_nxt = self.rcv_nxt.wrapping_add((plen as u64 % 0x1_0000_0000) as u32);
                    let waiting = self.waker.take();
                    if let Some(waker) = waiting {
                        wake(waker);
                    }
                    return Some(self.ack(ip));
                } else {
                    return None;
                }
            }
        }
        if tcp.is_fin() {
            match self.state {
                TcpStates::TCP_SYN_RECEIVED | TcpStates::TCP_ESTABLISHED => {
                    self.state = TcpStates::TCP_CLOSE_WAIT;
                },
                TcpStates::TCP_FIN_WAIT_1 => {
                    self.state = TcpStates::TCP_FIN_WAIT_2;
                },
                _ => {},
            }
        }
        None
    }

    /// Processes the acknowledgment field of `tcp`.
    fn process_ack(&mut self, tcp: &Tcp)
        requires
            tcp.wf(),
        ensures
            final(self)@ == step_ack(old(self)@, tcp@),
    {
        if self.state == TcpStates::TCP_SYN_RECEIVED {
            self.state = TcpStates::TCP_ESTABLISHED;
        }
        if self.state == TcpStates::TCP_CLOSE {
            return ;
        }
        let ack: u32 = tcp.ack();
        let seq: u32 = tcp.seq();
        let gap: u32 = ack.wrapping_sub(self.snd_una);
        if 0 < gap && gap <= self.snd_nxt.wrapping_sub(self.snd_una) {
            if self.snd_wl1 < seq || (self.snd_wl1 == seq && self.snd_wl2 <= ack) {
                self.snd_wnd = tcp.window() as u32;
                self.snd_wl1 = seq;
                self.snd_wl2 = ack;
            }
            self.snd_una = ack;
            if self.state == TcpStates::TCP_FIN_WAIT_1 {
                self.state = TcpStates::TCP_FIN_WAIT_2;
            }
        }
    }

    /// The acknowledgment that carries the connection's positions.
    fn ack(&self, ip: &Ipv4) -> (r: Tcp)
        requires
            ip.wf(),
        ensures
            r@ == ack_segment(self@, ip@.subrange(12, 16), ip@.subrange(16, 20)),
    {
        let flags = [TcpFlag::ACK];
        proof {
            assert(flags@ =~= seq![TcpFlag::ACK]);
            lemma_flag_bytes();
        }
        let mut packet = segment(
            self.quad.3,
            self.quad.1,
            self.snd_nxt,
            self.rcv_nxt,
            flags.as_slice(),
            self.rcv_wnd,
        );
        packet.set_checksum(ip.sip(), ip.dip());
        packet
    }

    /// The reset made of the offending segment `tcp`.
    fn reset(&self, tcp: Tcp, ip: &Ipv4) -> (r: Tcp)
        requires
            tcp.wf(),
            ip.wf(),
        ensures
            r@ == reset_segment(self@, tcp@, ip@.subrange(12, 16), ip@.subrange(16, 20)),
    {
        let mut packet = tcp;
        packet.set_dst(self.quad.1);
        packet.set_src(self.quad.3);
        packet.clear_flags();
        let flags = [TcpFlag::RST];
        proof {
            assert(flags@ =~= seq![TcpFlag::RST]);
            lemma_flag_bytes();
        }
        packet.set_flags(flags.as_slice());
        packet.set_seq(0);
        packet.set_ack(0);
        assert(packet@ =~= put32(
            put32(
                put16(put16(tcp@, 2, self@.remote_port), 0, self@.local_port).update(13, 4u8),
                4,
                0,
            ),
            8,
            0,
        ));
        packet.set_checksum(ip.sip(), ip.dip());
        packet
    }

    /// Makes the data segment that carries `item`, and moves the send
    /// position past it.
    pub fn write(&mut self, item: &[u8]) -> (r: Tcp)
        ensures
            r@ == data_segment(old(self)@, item@),
            final(self)@ == (ConnView {
                snd_nxt: old(self)@.snd_nxt.wrapping_add((item@.len() % 0x1_0000_0000) as u32),
                last_ipv4_id: old(self)@.last_ipv4_id.wrapping_add(1),
                ..old(self)@
            }),
    {
        self.last_ipv4_id = self.last_ipv4_id.wrapping_add(1);
        let flags = [TcpFlag::PSH, TcpFlag::ACK];
        proof {
            assert(flags@ =~= seq![TcpFlag::PSH, TcpFlag::ACK]);
            lemma_flag_bytes();
        }
        let mut packet = segment(
            self.quad.3,
            self.quad.1,
            self.snd_nxt,
            self.rcv_nxt,
            flags.as_slice(),
            self.rcv_wnd,
        );
        packet.set_data(vstd::slice::slice_to_vec(item));
        packet.set_checksum(self.quad.0, self.quad.2);
        self.snd_nxt = self.snd_nxt.wrapping_add((item.len() as u64 % 0x1_0000_0000) as u32);
        packet
    }

    /// Whether received bytes wait to be read.
    pub fn has_data(&self) -> (r: bool)
        ensures
            r == (self@.data.len() > 0),
    {
        !self.data.is_empty()
    }

    /// Remembers the reader to wake when payload arrives.
    pub fn register_waker(&mut self, waker: Waker)
        ensures
            final(self)@ == (ConnView { has_waker: true, ..old(self)@ }),
    {
        self.waker = Some(waker);
    }

    /// Moves as many received bytes as fit into the front of `buffer`, and
    /// returns how many.
    pub fn read(&mut self, buffer: &mut [u8]) -> (n: usize)
        ensures
            n == if old(buffer)@.len() <= old(self)@.data.len() {
                old(buffer)@.len()
            } else {
                old(self)@.data.len()
            },
            final(buffer)@ == old(self)@.data.subrange(0, n as int) + old(buffer)@.subrange(
                n as int,
                old(buffer)@.len() as int,
            ),
            final(self)@ == (ConnView {
                data: old(self)@.data.subrange(n as int, old(self)@.data.len() as int),
                ..old(self)@
            }),
    {
        let min_len: usize = if buffer.len() <= self.data.len() {
            buffer.len()
        } else {
            self.data.len()
        };
        let mut i: usize = 0;
        while i < min_len
            invariant
                i <= min_len,
                min_len <= buffer.len(),
                min_len <= self.data.len(),
                buffer@.len() == old(buffer)@.len(),
                *self == *old(self),
                forall|j: int| 0 <= j < i ==> buffer@[j] == self.data@[j],
                forall|j: int| i <= j < buffer@.len() ==> buffer@[j] == old(buffer)@[j],
            decreases min_len - i,
        {
            buffer[i] = self.data[i];
            i = i + 1;
        }
        let rest = self.data.split_off(min_len);
        self.data = rest;
        assert(buffer@ =~= old(self)@.data.subrange(0, min_len as int) + old(buffer)@.subrange(
            min_len as int,
            old(buffer)@.len() as int,
        ));
        min_len
    }

    /// The state of the connection.
    pub fn state(&self) -> (r: TcpStates)
        ensures
            r == self@.state,
    {
        self.state
    }

    /// The next sequence number to send.
    pub fn snd_nxt(&self) -> (r: u32)
        ensures
            r == self@.snd_nxt,
    {
        self.snd_nxt
    }

    /// The oldest sequence number not yet acknowledged.
    pub fn snd_una(&self) -> (r: u32)
        ensures
            r == self@.snd_una,
    {
        self.snd_una
    }

    /// The next sequence number expected from the peer.
    pub fn rcv_nxt(&self) -> (r: u32)
        ensures
            r == self@.rcv_nxt,
    {
        self.rcv_nxt
    }

    /// The window that the connection advertises.
    pub fn rcv_wnd(&self) -> (r: u16)
        ensures
            r == self@.rcv_wnd,
    {
        self.rcv_wnd
    }

    /// The 4-tuple of the connection: remote address and port, local address
    /// and port.
    pub fn quad(&self) -> (r: (Ipv4Addr, u16, Ipv4Addr, u16))
        ensures
            r.0@ == self@.remote_ip,
            r.1 == self@.remote_port,
            r.2@ == self@.local_ip,
            r.3 == self@.local_port,
    {
        self.quad
    }
}

/// The key of the connection between the remote endpoint `sip:sport` and the
/// local endpoint `dip:dport`.
pub open spec fn quad_key(sip: Seq<u8>, sport: u16, dip: Seq<u8>, dport: u16) -> u128 {
    (((raw_of(sip) as int * 0x1_0000 + sport as int) * 0x1_0000_0000 + raw_of(dip) as int)
        * 0x1_0000 + dport as int) as u128
}

/// The key of the connection that segment `s`, carried by IPv4 packet `ip`,
/// belongs to.
pub open spec fn segment_key(s: Seq<u8>, ip: Seq<u8>) -> u128 {
    quad_key(ip.subrange(12, 16), get16(s, 0), ip.subrange(16, 20), get16(s, 2))
}

/// A stream was accepted: the listener it is for, and the key of its
/// connection.
pub struct Accepted {
    pub listener: u64,
    pub key: u128,
}

/// How the connections `after` and the results `reply` and `accepted` follow
/// from the connections `before` when segment `s` arrives in packet `ip`,
/// with the local addresses `local`, the peers `remote` and the bound ports
/// `ports`.
///
/// Without a hardware address for either side the segment is dropped. A
/// segment of a known connection is handed to it. Any other is treated as an
/// opening, where its port is bound, and dropped where it is not.
pub open spec fn layer_handled(
    before: Map<u128, ConnView>,
    after: Map<u128, ConnView>,
    reply: Option<Seq<u8>>,
    accepted: Option<Accepted>,
    s: Seq<u8>,
    ip: Seq<u8>,
    local: Map<u128, u64>,
    remote: Map<u128, u64>,
    ports: Map<u128, u64>,
) -> bool {
    let sip = ip.subrange(12, 16);
    let dip = ip.subrange(16, 20);
    let key = segment_key(s, ip);
    let known = exists|m: u128| #[trigger] remote.dom().contains(m) && remote[m] == raw_of(sip) as u64;
    if !local.dom().contains(raw_of(dip) as u128) || !known {
        after == before && reply is None && accepted is None
    } else if before.dom().contains(key) {
        &&& after == before.insert(key, step(before[key], s).0)
        &&& accepted is None
        &&& match step(before[key], s).1 {
            Reply::Nothing => reply is None,
            Reply::Ack => reply == Some(ack_segment(after[key], sip, dip)),
            Reply::Reset => reply == Some(reset_segment(after[key], s, sip, dip)),
        }
    } else if !ports.dom().contains(get16(s, 2) as u128) {
        after == before && reply is None && accepted is None
    } else {
        match opening(s) {
            Opening::Dropped => after == before && reply is None && accepted is None,
            Opening::Refused => after == before && accepted is None && reply == Some(
                refusal_segment(s, sip, dip),
            ),
            Opening::Accepted => {
                &&& accepted == Some(
                    Accepted { listener: ports[get16(s, 2) as u128], key: key },
                )
                &&& after.dom() == before.dom().insert(key)
                &&& forall|k: u128| before.dom().contains(k) ==> after[k] == before[k]
                &&& exists|m: Mac, d: Mac|
                    {
                        &&& m.spec_key() == local[raw_of(dip) as u128]
                        &&& remote.contains_pair(d.spec_key() as u128, raw_of(sip) as u64)
                        &&& #[trigger] opened(s, ip, m@, d@) == after[key]
                    }
                &&& reply == Some(syn_ack_segment(after[key], sip, dip))
            },
        }
    }
}

/// The TCP layer: every connection, by its 4-tuple.
pub struct TcpLayer {
    index: KeyTable,
    connections: Vec<TcpConnection>,
}

impl TcpLayer {
    /// The connections, each under the key of its 4-tuple.
    pub closed spec fn view(&self) -> Map<u128, ConnView> {
        Map::new(
            |k: u128| table_entries(self.index).dom().contains(k),
            |k: u128| self.connections@[table_entries(self.index)[k] as int]@,
        )
    }

    /// Every key leads to a connection of its own.
    pub closed spec fn wf(&self) -> bool {
        &&& forall|k: u128| #[trigger]
            table_entries(self.index).dom().contains(k) ==> table_entries(self.index)[k]
                < self.connections@.len()
        &&& forall|j: u128, k: u128|
            #![trigger table_entries(self.index)[j], table_entries(self.index)[k]]
            table_entries(self.index).dom().contains(j) && table_entries(self.index).dom().contains(
                k,
            ) && j != k ==> table_entries(self.index)[j] != table_entries(self.index)[k]
    }

    /// A layer without connections.
    pub fn new() -> (r: Self)
        ensures
            r.wf(),
            r@ == Map::<u128, ConnView>::empty(),
    {
        let r = TcpLayer { index: table_new(), connections: Vec::new() };
        assert(r@ =~= Map::<u128, ConnView>::empty());
        r
    }

    /// The key of the connection between `sip:sport` and `dip:dport`.
    pub fn key_of(sip: Ipv4Addr, sport: u16, dip: Ipv4Addr, dport: u16) -> (r: u128)
        ensures
            r == quad_key(sip@, sport, dip@, dport),
    {
        let a: u128 = sip.raw() as u128;
        let b: u128 = sport as u128;
        let c: u128 = dip.raw() as u128;
        let d: u128 = dport as u128;
        ((a * 0x1_0000 + b) * 0x1_0000_0000 + c) * 0x1_0000 + d
    }

    /// Whether a connection stands under `key`.
    pub fn contains(&self, key: u128) -> (r: bool)
        ensures
            r == self@.dom().contains(key),
    {
        table_get(&self.index, key).is_some()
    }

    /// The position of the connection under `key`.
    fn position(&self, key: u128) -> (at: usize)
        requires
            self.wf(),
            self@.dom().contains(key),
        ensures
            at < self.connections@.len(),
            at == table_entries(self.index)[key],
            self.connections@[at as int]@ == self@[key],
    {
        assert(table_entries(self.index).dom().contains(key));
        let count: usize = self.connections.len();
        match table_get(&self.index, key) {
            Some(at) => {
                assert(at < count);
                at as usize
            },
            None => 0,
        }
    }

    /// After the connection at the position of `key` alone changed, the
    /// layer is what it was but for that key.
    proof fn lemma_changed_at(before: &TcpLayer, after: &TcpLayer, key: u128)
        requires
            before.wf(),
            before@.dom().contains(key),
            after.index == before.index,
            after.connections@.len() == before.connections@.len(),
            forall|i: int|
                0 <= i < before.connections@.len() && i != table_entries(before.index)[key]
                    ==> after.connections@[i] == before.connections@[i],
        ensures
            after.wf(),
            after@ == before@.insert(
                key,
                after.connections@[table_entries(before.index)[key] as int]@,
            ),
    {
        assert(after@ =~= before@.insert(
            key,
            after.connections@[table_entries(before.index)[key] as int]@,
        ));
    }

    /// Treats a segment that arrived in IPv4 packet `ctx`, and returns the
    /// segment to send back, if any, and the stream to hand to a listener, if
    /// one was accepted.
    pub fn handle_packet(&mut self, packet: Tcp, ctx: &Ipv4, arp: &Arp, ports: &Ports) -> (r: (
        Option<Tcp>,
        Option<Accepted>,
    ))
        requires
            old(self).wf(),
            arp.wf(),
            packet.wf(),
            ctx.wf(),
        ensures
            final(self).wf(),
            layer_handled(
                old(self)@,
                final(self)@,
                match r.0 {
                    Some(t) => Some(t@),
                    None => None,
                },
                r.1,
                packet@,
                ctx@,
                arp.local(),
                arp.remote(),
                ports@,
            ),
    {
        let sip = ctx.sip();
        let dip = ctx.dip();
        let local_mac = match arp.resolve_ip_local(dip) {
            Some(m) => m,
            None => {
                return (None, None);
            },
        };
        let mac = match arp.cached(sip) {
            Some(m) => m,
            None => {
                return (None, None);
            },
        };
        assert(arp.remote().contains_pair(
            mac.spec_key() as u128,
            raw_of(ctx@.subrange(12, 16)) as u64,
        ));
        let key = Self::key_of(sip, packet.src(), dip, packet.dst());
        if self.contains(key) {
            let at = self.position(key);
            let out = self.connections[at].handle_packet(packet, ctx);
            proof {
                Self::lemma_changed_at(old(self), self, key);
            }
            (out, None)
        } else {
            let listener = match ports.listener(packet.dst()) {
                Some(l) => l,
                None => {
                    return (None, None);
                },
            };
            match TcpConnection::accept(packet, ctx, local_mac, mac) {
                Ok((conn, out)) => {
                    let at: usize = self.connections.len();
                    self.connections.push(conn);
                    table_insert(&mut self.index, key, at as u64);
                    proof {
                        assert(self@.dom() =~= old(self)@.dom().insert(key));
                        assert forall|k: u128| old(self)@.dom().contains(k) implies self@[k] == old(
                            self,
                        )@[k] by {
                            assert(table_entries(old(self).index).dom().contains(k));
                        }
                        assert(self@[key] == opened(packet@, ctx@, local_mac@, mac@));
                    }
                    (Some(out), Some(Accepted { listener, key }))
                },
                Err(e) => (e, None),
            }
        }
    }

    /// The address of the peer of the connection under `key`.
    pub fn remote_ip(&self, key: u128) -> (r: Ipv4Addr)
        requires
            self.wf(),
            self@.dom().contains(key),
        ensures
            r@ == self@[key].remote_ip,
    {
        let at = self.position(key);
        self.connections[at].quad().0
    }

    /// Frames the segment `packet` for sending from `sip` to `dip`, by the
    /// IPv4 layer's egress.
    pub fn handle_tx(
        &self,
        packet: Tcp,
        sip: Ipv4Addr,
        dip: Ipv4Addr,
        ip: &mut IpLayer,
        arp: &Arp,
    ) -> (r: Option<Ether2Frame>)
        requires
            arp.wf(),
        ensures
            final(ip).next_id() == old(ip).next_id().wrapping_add(1),
            egress_framed(
                match r {
                    Some(f) => Some(f@),
                    None => None,
                },
                packet@,
                6,
                dip@,
                sip@,
                old(ip).next_id(),
                arp.local(),
                arp.remote(),
            ),
    {
        ip.handle_tx(packet.as_bytes(), Ipv4Proto::TCP, dip, sip, arp)
    }

    /// Reads from the connection under `key` into the front of `buffer`;
    /// where nothing waits, `waker` is registered instead.
    pub fn read(&mut self, key: u128, buffer: &mut [u8], waker: Waker) -> (r: ReadProgress)
        requires
            old(self).wf(),
            old(self)@.dom().contains(key),
        ensures
            final(self).wf(),
            ({
                let c = old(self)@[key];
                let n = if old(buffer)@.len() <= c.data.len() {
                    old(buffer)@.len() as int
                } else {
                    c.data.len() as int
                };
                if c.data.len() == 0 {
                    &&& r is Pending
                    &&& final(buffer)@ == old(buffer)@
                    &&& final(self)@ == old(self)@.insert(key, ConnView { has_waker: true, ..c })
                } else {
                    &&& r == ReadProgress::Ready(n as usize)
                    &&& final(buffer)@ == c.data.subrange(0, n) + old(buffer)@.subrange(
                        n,
                        old(buffer)@.len() as int,
                    )
                    &&& final(self)@ == old(self)@.insert(
                        key,
                        ConnView { data: c.data.subrange(n, c.data.len() as int), ..c },
                    )
                }
            }),
    {
        let at = self.position(key);
        if !self.connections[at].has_data() {
            self.connections[at].register_waker(waker);
            proof {
                Self::lemma_changed_at(old(self), self, key);
            }
            return ReadProgress::Pending;
        }
        let n = self.connections[at].read(buffer);
        proof {
            Self::lemma_changed_at(old(self), self, key);
        }
        ReadProgress::Ready(n)
    }

    /// Makes the data segment that carries `item` on the connection under
    /// `key`, and moves its send position past it.
    pub fn write(&mut self, key: u128, item: &[u8]) -> (r: Tcp)
        requires
            old(self).wf(),
            old(self)@.dom().contains(key),
        ensures
            final(self).wf(),
            r@ == data_segment(old(self)@[key], item@),
            final(self)@ == old(self)@.insert(
                key,
                ConnView {
                    snd_nxt: old(self)@[key].snd_nxt.wrapping_add(
                        (item@.len() % 0x1_0000_0000) as u32,
                    ),
                    last_ipv4_id: old(self)@[key].last_ipv4_id.wrapping_add(1),
                    ..old(self)@[key]
                },
            ),
    {
        let at = self.position(key);
        let out = self.connections[at].write(item);
        proof {
            Self::lemma_changed_at(old(self), self, key);
        }
        out
    }
}

/// A connection opened by a SYN stands in SYN-RECEIVED with an initial send
/// sequence number of zero, expects the byte after the SYN, and has its send
/// positions in order.
pub proof fn lemma_opened(s: Seq<u8>, ip: Seq<u8>, mac: Seq<u8>, dst_mac: Seq<u8>)
    ensures
        opened(s, ip, mac, dst_mac).state == TcpStates::TCP_SYN_RECEIVED,
        opened(s, ip, mac, dst_mac).snd_iss == 0,
        opened(s, ip, mac, dst_mac).snd_nxt == 1,
        opened(s, ip, mac, dst_mac).rcv_wnd == 1024,
        opened(s, ip, mac, dst_mac).rcv_nxt == get32(s, 4).wrapping_add(1),
        send_ordered(opened(s, ip, mac, dst_mac)),
{
}

/// The acknowledgment that completes the handshake establishes the
/// connection and is not answered. Where it acknowledges the SYN sent, the
/// unacknowledged position moves to it.
pub proof fn lemma_handshake_establishes(c: ConnView, a: Seq<u8>)
    requires
        c.state == TcpStates::TCP_SYN_RECEIVED,
        !malformed(a),
        flag(a, 16),
        !flag(a, 4),
        !flag(a, 2),
        !flag(a, 1),
        payload(a).len() == 0,
    ensures
        step(c, a) == (step_ack(c, a), Reply::Nothing),
        step(c, a).0.state == TcpStates::TCP_ESTABLISHED,
        step(c, a).0.snd_nxt == c.snd_nxt,
        step(c, a).0.rcv_nxt == c.rcv_nxt,
        step(c, a).0.snd_una == if acks_new(c.snd_una, c.snd_nxt, get32(a, 8)) {
            get32(a, 8)
        } else {
            c.snd_una
        },
{
}

/// An acknowledgment of something new moves the unacknowledged position to
/// it, in every state but CLOSED; any other acknowledgment leaves the
/// position where it was. The peer's window is taken only with an
/// acknowledgment of something new, and only from a segment no older than the
/// one it was last taken from. A connection in SYN-SENT first drops what
/// acknowledges nothing it sent.
pub proof fn lemma_ack_advances(c: ConnView, s: Seq<u8>)
    requires
        c.state != TcpStates::TCP_CLOSE,
        !malformed(s),
        flag(s, 16),
        !flag(s, 4),
        c.state == TcpStates::TCP_SYNSENT || !flag(s, 2),
        c.state == TcpStates::TCP_SYNSENT ==> c.snd_iss < get32(s, 8) <= c.snd_nxt,
    ensures
        step(c, s).0.snd_una == if acks_new(c.snd_una, c.snd_nxt, get32(s, 8)) {
            get32(s, 8)
        } else {
            c.snd_una
        },
        step(c, s).0.snd_nxt == c.snd_nxt,
        step(c, s).0.snd_wnd == if acks_new(c.snd_una, c.snd_nxt, get32(s, 8)) && (c.snd_wl1
            < get32(s, 4) || (c.snd_wl1 == get32(s, 4) && c.snd_wl2 <= get32(s, 8))) {
            get16(s, 14) as u32
        } else {
            c.snd_wnd
        },
{
}

/// A reset is never answered. It closes a connection in SYN-RECEIVED,
/// ESTABLISHED, FIN-WAIT-1, FIN-WAIT-2 and CLOSE-WAIT, and changes nothing in
/// any other state.
pub proof fn lemma_reset(c: ConnView, s: Seq<u8>)
    requires
        !malformed(s),
        flag(s, 4),
    ensures
        step(c, s).1 is Nothing,
        step(c, s).0 == step_rst(c),
        (c.state == TcpStates::TCP_SYN_RECEIVED || c.state == TcpStates::TCP_ESTABLISHED || c.state
            == TcpStates::TCP_FIN_WAIT_1 || c.state == TcpStates::TCP_FIN_WAIT_2 || c.state
            == TcpStates::TCP_CLOSE_WAIT) ==> step(c, s).0.state == TcpStates::TCP_CLOSE,
        (c.state == TcpStates::TCP_LISTEN || c.state == TcpStates::TCP_SYNSENT || c.state
            == TcpStates::TCP_CLOSE || c.state == TcpStates::TCP_CLOSING || c.state
            == TcpStates::TCP_LAST_ACK || c.state == TcpStates::TCP_TIME_WAIT) ==> step(c, s).0
            == c,
{
}

/// A FIN without payload moves SYN-RECEIVED and ESTABLISHED to CLOSE-WAIT
/// and FIN-WAIT-1 to FIN-WAIT-2, is not answered, and leaves CLOSED, LISTEN
/// and SYN-SENT in their state; the urgent flag changes nothing of this.
pub proof fn lemma_fin(c: ConnView, s: Seq<u8>)
    requires
        !malformed(s),
        flag(s, 1),
        !flag(s, 4),
        !flag(s, 2),
        payload(s).len() == 0,
    ensures
        step(c, s).1 is Nothing,
        (c.state == TcpStates::TCP_SYN_RECEIVED || c.state == TcpStates::TCP_ESTABLISHED)
            ==> step(c, s).0.state == TcpStates::TCP_CLOSE_WAIT,
        c.state == TcpStates::TCP_FIN_WAIT_1 ==> step(c, s).0.state == TcpStates::TCP_FIN_WAIT_2,
        (c.state == TcpStates::TCP_CLOSE || c.state == TcpStates::TCP_LISTEN || c.state
            == TcpStates::TCP_SYNSENT) ==> step(c, s).0.state == c.state,
{
}

/// In-order payload on an established connection is appended to what was
/// received, moves the receive position past it, and is acknowledged.
pub proof fn lemma_in_order_data(c: ConnView, s: Seq<u8>)
    requires
        c.state == TcpStates::TCP_ESTABLISHED,
        !malformed(s),
        !flag(s, 4),
        !flag(s, 2),
        payload(s).len() > 0,
        get32(s, 4) == c.rcv_nxt,
    ensures
        step(c, s).1 is Ack,
        step(c, s).0.state == TcpStates::TCP_ESTABLISHED,
        step(c, s).0.data == c.data + payload(s),
        step(c, s).0.rcv_nxt == c.rcv_nxt.wrapping_add((payload(s).len() % 0x1_0000_0000) as u32),
        step(c, s).0.snd_nxt == c.snd_nxt,
{
}

/// In every state, a segment never moves the position sent next, never
/// moves the unacknowledged position away from it, and leaves the send
/// positions in order.
pub proof fn lemma_step_keeps_send_order(c: ConnView, s: Seq<u8>)
    requires
        send_ordered(c),
    ensures
        step(c, s).0.snd_nxt == c.snd_nxt,
        send_ordered(step(c, s).0),
        step(c, s).0.snd_nxt.wrapping_sub(step(c, s).0.snd_una) <= c.snd_nxt.wrapping_sub(
            c.snd_una,
        ),
{
}

/// A segment moves the receive position forward by the payload it brings, or
/// not at all. A connection in SYN-SENT is left out: there the position is
/// set from the peer's SYN.
pub proof fn lemma_step_rcv_nxt(c: ConnView, s: Seq<u8>)
    requires
        c.state != TcpStates::TCP_SYNSENT,
    ensures
        step(c, s).0.rcv_nxt == c.rcv_nxt || (step(c, s).1 is Ack && step(c, s).0.rcv_nxt
            == c.rcv_nxt.wrapping_add((payload(s).len() % 0x1_0000_0000) as u32)),
{
}

/// A segment never makes a closed connection anything but closed.
pub proof fn lemma_closed_stays_closed(c: ConnView, s: Seq<u8>)
    requires
        c.state == TcpStates::TCP_CLOSE,
    ensures
        step(c, s).0.state == TcpStates::TCP_CLOSE,
{
}

/// Writing leaves the send positions in order while less than half the
/// sequence space is unacknowledged afterwards.
pub proof fn lemma_write_keeps_send_order(c: ConnView, len: nat)
    requires
        send_ordered(c),
        c.snd_nxt.wrapping_sub(c.snd_una) + len < 0x8000_0000,
    ensures
        send_ordered(
            ConnView { snd_nxt: c.snd_nxt.wrapping_add((len % 0x1_0000_0000) as u32), ..c },
        ),
{
}

/// What is read from a segment made by `plain_segment` once it carries its
/// checksum: the ports, positions, flags and window it was made with, and a
/// header of twenty bytes without payload.
pub proof fn lemma_segment_fields(
    src_port: u16,
    dst_port: u16,
    seq: u32,
    ack: u32,
    flags: u8,
    window: u16,
    sip: Seq<u8>,
    dip: Seq<u8>,
)
    ensures
        ({
            let s = with_tcp_checksum(
                plain_segment(src_port, dst_port, seq, ack, flags, window),
                sip,
                dip,
            );
            &&& s.len() == 20
            &&& get16(s, 0) == src_port
            &&& get16(s, 2) == dst_port
            &&& get32(s, 4) == seq
            &&& get32(s, 8) == ack
            &&& spec_hlen(s[12]) == 20
            &&& s[13] == flags
            &&& get16(s, 14) == window
            &&& payload(s).len() == 0
        }),
{
}

/// The answer to a SYN that opens a connection: SYN,ACK from the port the
/// SYN was for to the port it came from, at sequence number zero, and
/// acknowledging the byte after the SYN.
pub proof fn lemma_syn_ack_fields(s: Seq<u8>, ip: Seq<u8>, mac: Seq<u8>, dst_mac: Seq<u8>)
    ensures
        ({
            let c = opened(s, ip, mac, dst_mac);
            let r = syn_ack_segment(c, ip.subrange(12, 16), ip.subrange(16, 20));
            &&& get16(r, 0) == get16(s, 2)
            &&& get16(r, 2) == get16(s, 0)
            &&& get32(r, 4) == 0
            &&& get32(r, 8) == get32(s, 4).wrapping_add(1)
            &&& r[13] == 18
        }),
{
    let c = opened(s, ip, mac, dst_mac);
    lemma_segment_fields(
        c.local_port,
        c.remote_port,
        c.snd_iss,
        c.rcv_nxt,
        18,
        0,
        ip.subrange(12, 16),
        ip.subrange(16, 20),
    );
}

/// The acknowledgment that a connection sends: from its local port to the
/// remote one, ACK alone, at the position sent next, acknowledging the
/// position expected next, and with the connection's window.
pub proof fn lemma_ack_fields(c: ConnView, sip: Seq<u8>, dip: Seq<u8>)
    ensures
        ({
            let r = ack_segment(c, sip, dip);
            &&& get16(r, 0) == c.local_port
            &&& get16(r, 2) == c.remote_port
            &&& get32(r, 4) == c.snd_nxt
            &&& get32(r, 8) == c.rcv_nxt
            &&& r[13] == 16
            &&& get16(r, 14) == c.rcv_wnd
        }),
{
    lemma_segment_fields(c.local_port, c.remote_port, c.snd_nxt, c.rcv_nxt, 16, c.rcv_wnd, sip, dip);
}

} // verus!

use std::sync::atomic::{AtomicUsize, Ordering};
use std::sync::Arc;
use std::task::{Wake, Waker};

use vallicks::net::tcp::TcpConnection;
use vallicks::net::wire::ipaddr::Ipv4Addr;
use vallicks::net::wire::ipv4::{checksum, u32_to_u16, Ipv4, Ipv4Proto};
use vallicks::net::wire::mac::Mac;
use vallicks::net::wire::tcp::{Tcp, TcpFlag, TcpStates};
use vallicks::net::wire::Packet;

struct Counter(AtomicUsize);

impl Wake for Counter {
    fn wake(self: Arc<Self>) {
        self.0.fetch_add(1, Ordering::SeqCst);
    }
}

fn counting_waker() -> (Arc<Counter>, Waker) {
    let c = Arc::new(Counter(AtomicUsize::new(0)));
    (c.clone(), Waker::from(c))
}

fn peer_ip() -> Ipv4Addr {
    Ipv4Addr::new(192, 168, 100, 1)
}

fn host_ip() -> Ipv4Addr {
    Ipv4Addr::new(192, 168, 100, 51)
}

fn ctx() -> Ipv4 {
    let mut ip = Ipv4::zeroed();
    ip.set_proto(Ipv4Proto::TCP);
    ip.set_sip(peer_ip());
    ip.set_dip(host_ip());
    ip.set_id(77);
    ip
}

fn segment(flags: &[TcpFlag], seq: u32, ack: u32, data: &[u8]) -> Tcp {
    let mut t = Tcp::zeroed();
    t.set_src(40000);
    t.set_dst(1234);
    t.set_seq(seq);
    t.set_ack(ack);
    t.set_window(65535);
    t.set_hlen(20);
    t.set_flags(flags);
    t.set_data(data.to_vec());
    t
}

fn host_mac() -> Mac {
    Mac::from_octets([0x52, 0x54, 0x00, 0x12, 0x34, 0x56])
}

fn peer_mac() -> Mac {
    Mac::from_octets([2, 0, 0, 0, 0, 1])
}

fn open() -> (TcpConnection, Tcp) {
    match TcpConnection::accept(segment(&[TcpFlag::SYN], 1000, 0, &[]), &ctx(), host_mac(), peer_mac()) {
        Ok(pair) => pair,
        Err(_) => panic!("a SYN must be accepted"),
    }
}

fn established() -> TcpConnection {
    let (mut conn, _) = open();
    assert!(conn.handle_packet(segment(&[TcpFlag::ACK], 1001, 1, &[]), &ctx()).is_none());
    conn
}

fn checksum_ok(seg: &Tcp, src: [u8; 4], dst: [u8; 4]) -> bool {
    let mut all = Vec::new();
    all.extend_from_slice(&src);
    all.extend_from_slice(&dst);
    all.extend_from_slice(&[0, 6]);
    all.extend_from_slice(&(seg.len() as u16).to_be_bytes());
    all.extend_from_slice(seg.as_bytes());
    u32_to_u16(checksum(&all)) == 0
}

#[test]
fn handshake_with_literal_numbers() {
    let (mut conn, syn_ack) = open();
    assert_eq!(conn.state(), TcpStates::TCP_SYN_RECEIVED);
    assert_eq!(syn_ack.seq(), 0);
    assert_eq!(syn_ack.ack(), 1001);
    assert_eq!(syn_ack.flags(), 0x12);
    assert_eq!(syn_ack.src(), 1234);
    assert_eq!(syn_ack.dst(), 40000);
    assert_eq!(syn_ack.hlen(), 20);
    assert_eq!(syn_ack.len(), 20);
    assert!(checksum_ok(&syn_ack, [192, 168, 100, 1], [192, 168, 100, 51]));
    assert_eq!(conn.snd_nxt(), 1);
    assert_eq!(conn.snd_una(), 0);
    assert_eq!(conn.rcv_nxt(), 1001);
    assert_eq!(conn.rcv_wnd(), 1024);

    let reply = conn.handle_packet(segment(&[TcpFlag::ACK], 1001, 1, &[]), &ctx());
    assert!(reply.is_none());
    assert_eq!(conn.state(), TcpStates::TCP_ESTABLISHED);
    assert_eq!(conn.snd_nxt(), 1);
    assert_eq!(conn.rcv_nxt(), 1001);
    // The acknowledgment of the SYN moves the unacknowledged position.
    assert_eq!(conn.snd_una(), 1);
}

#[test]
fn handshake_ack_of_nothing_sent_establishes_without_advancing() {
    let (mut conn, _) = open();
    assert!(conn.handle_packet(segment(&[TcpFlag::ACK], 1001, 77, &[]), &ctx()).is_none());
    assert_eq!(conn.state(), TcpStates::TCP_ESTABLISHED);
    assert_eq!(conn.snd_una(), 0);
}

#[test]
fn plain_acks_advance_the_unacknowledged_position() {
    let mut conn = established();
    conn.write(b"0123456789");
    assert_eq!((conn.snd_una(), conn.snd_nxt()), (1, 11));
    let ack = conn
        .handle_packet(segment(&[TcpFlag::ACK], 1001, 6, &[]), &ctx())
        .expect("a bare acknowledgment is answered");
    assert_eq!(ack.flags(), 0x10);
    assert_eq!(conn.snd_una(), 6);
    conn.handle_packet(segment(&[TcpFlag::ACK], 1001, 11, &[]), &ctx());
    assert_eq!(conn.snd_una(), 11);
    // What was acknowledged already, or never sent, moves nothing.
    conn.handle_packet(segment(&[TcpFlag::ACK], 1001, 3, &[]), &ctx());
    assert_eq!(conn.snd_una(), 11);
    conn.handle_packet(segment(&[TcpFlag::ACK], 1001, 12, &[]), &ctx());
    assert_eq!(conn.snd_una(), 11);
    assert_eq!(conn.snd_nxt(), 11);
}

#[test]
fn reset_with_other_flags_is_never_answered() {
    let mut conn = established();
    let r = conn.handle_packet(
        segment(&[TcpFlag::RST, TcpFlag::SYN, TcpFlag::ACK], 1001, 1, b"x"),
        &ctx(),
    );
    assert!(r.is_none());
    assert_eq!(conn.state(), TcpStates::TCP_CLOSE);
    assert!(!conn.has_data());
    let (mut fresh, _) = open();
    assert!(fresh.handle_packet(segment(&[TcpFlag::RST, TcpFlag::ACK], 1001, 1, &[]), &ctx()).is_none());
    assert_eq!(fresh.state(), TcpStates::TCP_CLOSE);
}

#[test]
fn accept_and_echo() {
    let mut conn = established();
    let (count, waker) = counting_waker();
    conn.register_waker(waker);
    assert!(!conn.has_data());

    let ack = conn
        .handle_packet(segment(&[TcpFlag::PSH, TcpFlag::ACK], 1001, 1, b"ping"), &ctx())
        .expect("in-order data is acknowledged");
    assert_eq!(ack.flags(), 0x10);
    assert_eq!(ack.seq(), 1);
    assert_eq!(ack.ack(), 1005);
    assert_eq!(ack.window(), 1024);
    assert_eq!(ack.dlen(), 0);
    assert_eq!(count.0.load(Ordering::SeqCst), 1);
    assert_eq!(conn.snd_una(), 1);

    assert!(conn.has_data());
    let mut buffer = vec![0u8; 16];
    assert_eq!(conn.read(&mut buffer), 4);
    assert_eq!(&buffer[..4], b"ping");
    assert_eq!(&buffer[4..], &[0u8; 12]);
    assert!(!conn.has_data());

    let out = conn.write(b"ping");
    assert_eq!(out.flags(), 0x18);
    assert_eq!(out.seq(), 1);
    assert_eq!(out.ack(), 1005);
    assert_eq!(out.data(), b"ping");
    assert_eq!(out.src(), 1234);
    assert_eq!(out.dst(), 40000);
    assert!(checksum_ok(&out, [192, 168, 100, 1], [192, 168, 100, 51]));
    assert_eq!(conn.snd_nxt(), 5);
}

#[test]
fn read_takes_only_what_fits() {
    let mut conn = established();
    conn.handle_packet(segment(&[TcpFlag::PSH, TcpFlag::ACK], 1001, 1, b"abcdef"), &ctx());
    let mut small = vec![0u8; 4];
    assert_eq!(conn.read(&mut small), 4);
    assert_eq!(small, b"abcd");
    let mut rest = vec![9u8; 4];
    assert_eq!(conn.read(&mut rest), 2);
    assert_eq!(rest, vec![b'e', b'f', 9, 9]);
    let mut none = vec![1u8; 2];
    assert_eq!(conn.read(&mut none), 0);
    assert_eq!(none, vec![1, 1]);
}

#[test]
fn accept_drops_a_reset() {
    let r = TcpConnection::accept(segment(&[TcpFlag::RST], 5, 0, &[]), &ctx(), host_mac(), peer_mac());
    assert!(matches!(r, Err(None)));
    let r = TcpConnection::accept(
        segment(&[TcpFlag::RST, TcpFlag::SYN], 5, 0, &[]),
        &ctx(),
        host_mac(),
        peer_mac(),
    );
    assert!(matches!(r, Err(None)));
}

#[test]
fn accept_refuses_a_bare_ack_with_a_reset() {
    let r = TcpConnection::accept(segment(&[TcpFlag::ACK], 5, 4242, &[]), &ctx(), host_mac(), peer_mac());
    match r {
        Err(Some(rst)) => {
            assert_eq!(rst.flags(), 0x04);
            assert_eq!(rst.seq(), 4242);
            assert_eq!(rst.ack(), 0);
            assert_eq!(rst.src(), 1234);
            assert_eq!(rst.dst(), 40000);
            assert!(checksum_ok(&rst, [192, 168, 100, 1], [192, 168, 100, 51]));
        }
        _ => panic!("an ACK without SYN is refused"),
    }
}

#[test]
fn accept_drops_a_segment_without_syn() {
    let r = TcpConnection::accept(segment(&[TcpFlag::FIN], 5, 0, &[]), &ctx(), host_mac(), peer_mac());
    assert!(matches!(r, Err(None)));
    let r = TcpConnection::accept(segment(&[], 5, 0, &[]), &ctx(), host_mac(), peer_mac());
    assert!(matches!(r, Err(None)));
}

#[test]
fn accept_takes_the_sequence_number_modulo_two_to_the_32() {
    let r = TcpConnection::accept(
        segment(&[TcpFlag::SYN], 0xffff_ffff, 0, &[]),
        &ctx(),
        host_mac(),
        peer_mac(),
    );
    match r {
        Ok((conn, syn_ack)) => {
            assert_eq!(conn.rcv_nxt(), 0);
            assert_eq!(syn_ack.ack(), 0);
            let q = conn.quad();
            assert_eq!(q.0, peer_ip());
            assert_eq!(q.1, 40000);
            assert_eq!(q.2, host_ip());
            assert_eq!(q.3, 1234);
        }
        Err(_) => panic!("a SYN must be accepted"),
    }
}

#[test]
fn established_answers_a_bare_ack() {
    let mut conn = established();
    let ack = conn
        .handle_packet(segment(&[TcpFlag::ACK], 1001, 1, &[]), &ctx())
        .expect("a keep-alive is answered");
    assert_eq!(ack.flags(), 0x10);
    assert_eq!(ack.seq(), 1);
    assert_eq!(ack.ack(), 1001);
    assert_eq!(conn.state(), TcpStates::TCP_ESTABLISHED);
}

#[test]
fn reset_closes_the_connection() {
    let mut conn = established();
    assert!(conn.handle_packet(segment(&[TcpFlag::RST], 1001, 0, &[]), &ctx()).is_none());
    assert_eq!(conn.state(), TcpStates::TCP_CLOSE);
    // A closed connection stays closed.
    assert!(conn.handle_packet(segment(&[TcpFlag::RST], 1001, 0, &[]), &ctx()).is_none());
    assert_eq!(conn.state(), TcpStates::TCP_CLOSE);
}

#[test]
fn syn_on_a_connection_is_answered_by_one_reset() {
    let mut conn = established();
    let rst = conn
        .handle_packet(segment(&[TcpFlag::SYN], 1001, 0, &[]), &ctx())
        .expect("a SYN on a connection is answered by a reset");
    assert_eq!(rst.flags(), 0x04);
    assert_eq!(rst.seq(), 0);
    assert_eq!(rst.ack(), 0);
    assert_eq!(rst.src(), 1234);
    assert_eq!(rst.dst(), 40000);
    assert_eq!(conn.state(), TcpStates::TCP_CLOSE);
}

#[test]
fn fin_moves_to_close_wait() {
    let mut conn = established();
    assert!(conn
        .handle_packet(segment(&[TcpFlag::FIN, TcpFlag::ACK], 1001, 1, &[]), &ctx())
        .is_none());
    assert_eq!(conn.state(), TcpStates::TCP_CLOSE_WAIT);
}

#[test]
fn out_of_order_data_is_dropped() {
    let mut conn = established();
    let r = conn.handle_packet(segment(&[TcpFlag::PSH, TcpFlag::ACK], 2000, 1, b"late"), &ctx());
    assert!(r.is_none());
    assert!(!conn.has_data());
    assert_eq!(conn.rcv_nxt(), 1001);
}

#[test]
fn malformed_segment_changes_nothing() {
    let mut conn = established();
    let mut raw = segment(&[TcpFlag::PSH, TcpFlag::ACK], 1001, 1, b"ping").into_bytes();
    raw[12] = 0xf0;
    let seg = Tcp::from_bytes(raw).unwrap();
    assert!(conn.handle_packet(seg, &ctx()).is_none());
    assert_eq!(conn.state(), TcpStates::TCP_ESTABLISHED);
    assert_eq!(conn.rcv_nxt(), 1001);
    assert!(!conn.has_data());
}

#[test]
fn urgent_flag_is_ignored() {
    let mut conn = established();
    let r = conn.handle_packet(
        segment(&[TcpFlag::URG, TcpFlag::PSH, TcpFlag::ACK], 1001, 1, b"ping"),
        &ctx(),
    );
    let ack = r.expect("in-order data is acknowledged, urgent or not");
    assert_eq!(ack.ack(), 1005);
    assert!(conn.has_data());
    assert!(conn
        .handle_packet(segment(&[TcpFlag::URG, TcpFlag::FIN, TcpFlag::ACK], 1005, 1, &[]), &ctx())
        .is_none());
    assert_eq!(conn.state(), TcpStates::TCP_CLOSE_WAIT);
}

#[test]
fn acknowledgment_advances_the_unacknowledged_position() {
    let mut conn = established();
    conn.write(b"0123456789");
    assert_eq!(conn.snd_nxt(), 11);
    conn.handle_packet(segment(&[TcpFlag::PSH, TcpFlag::ACK], 1001, 6, b"x"), &ctx());
    assert_eq!(conn.snd_una(), 6);
    // An acknowledgment of what was never sent is ignored.
    conn.handle_packet(segment(&[TcpFlag::PSH, TcpFlag::ACK], 1002, 500, b"y"), &ctx());
    assert_eq!(conn.snd_una(), 6);
    assert_eq!(conn.rcv_nxt(), 1003);
}

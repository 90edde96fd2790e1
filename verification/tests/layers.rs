use vallicks::net::arp::{Arp, Resolve};
use vallicks::net::device::NetworkDevice;
use vallicks::net::ethernet::Ethernet;
use vallicks::net::icmp::IcmpLayer;
use vallicks::net::ip::IpLayer;
use vallicks::net::socks::{Ports, ReadProgress, TcpListener};
use vallicks::net::tcp::TcpLayer;
use vallicks::net::wire::arp::{ArpOpcode, ArpPacket};
use vallicks::net::wire::eth2::{Ether2Frame, EtherType};
use vallicks::net::wire::icmp::{Icmp, IcmpType};
use vallicks::net::wire::ipaddr::Ipv4Addr;
use vallicks::net::wire::ipv4::{checksum, u32_to_u16, Ipv4, Ipv4Proto};
use vallicks::net::wire::mac::Mac;
use vallicks::net::wire::tcp::{Tcp, TcpFlag};
use vallicks::net::wire::Packet;

use std::sync::Arc;
use std::task::{Wake, Waker};

struct Quiet;

impl Wake for Quiet {
    fn wake(self: Arc<Self>) {}
}

fn waker() -> Waker {
    Waker::from(Arc::new(Quiet))
}

fn host_mac() -> Mac {
    Mac::from_octets([0x52, 0x54, 0x00, 0x12, 0x34, 0x56])
}

fn peer_mac() -> Mac {
    Mac::from_octets([2, 0, 0, 0, 0, 1])
}

fn host_ip() -> Ipv4Addr {
    Ipv4Addr::new(192, 168, 100, 51)
}

fn peer_ip() -> Ipv4Addr {
    Ipv4Addr::new(192, 168, 100, 1)
}

struct Stack {
    ethernet: Ethernet,
    arp: Arp,
    ip: IpLayer,
    tcp: TcpLayer,
    ports: Ports,
    device: NetworkDevice,
}

fn stack() -> Stack {
    let mut ethernet = Ethernet::new();
    let mut arp = Arp::new();
    let mut device = NetworkDevice::new(host_mac(), 7, &mut ethernet);
    device.set_ip(host_ip(), &mut arp);
    Stack { ethernet, arp, ip: IpLayer::new(), tcp: TcpLayer::new(), ports: Ports::new(), device }
}

fn arp_request() -> ArpPacket {
    let mut p = ArpPacket::zeroed();
    p.set_hw_type(1);
    p.set_proto(EtherType::IPv4);
    p.set_hw_size(6);
    p.set_proto_size(4);
    p.set_opcode(ArpOpcode::ArpRequest);
    p.set_smac(peer_mac());
    p.set_sip(peer_ip());
    p.set_tip(host_ip());
    p
}

fn frame(dtype: EtherType, payload: &[u8]) -> Vec<u8> {
    let mut f = Ether2Frame::zeroed();
    f.set_dst(host_mac());
    f.set_src(peer_mac());
    f.set_dtype(dtype);
    f.set_data(payload);
    f.into_bytes()
}

fn ip_packet(proto: Ipv4Proto, payload: &[u8]) -> Vec<u8> {
    let mut p = Ipv4::zeroed();
    p.set_proto(proto);
    p.set_sip(peer_ip());
    p.set_dip(host_ip());
    p.set_id(9);
    p.set_data(payload);
    p.set_len();
    p.set_checksum();
    p.into_bytes()
}

fn segment(flags: &[TcpFlag], seq: u32, ack: u32, data: &[u8]) -> Vec<u8> {
    let mut t = Tcp::zeroed();
    t.set_src(40000);
    t.set_dst(1234);
    t.set_seq(seq);
    t.set_ack(ack);
    t.set_window(65535);
    t.set_hlen(20);
    t.set_flags(flags);
    t.set_data(data.to_vec());
    t.set_checksum(peer_ip(), host_ip());
    t.into_bytes()
}

fn receive(s: &mut Stack, bytes: Vec<u8>) -> (Option<Vec<u8>>, Option<vallicks::net::tcp::Accepted>) {
    s.device.on_received(bytes, &s.ethernet, &mut s.arp, &mut s.ip, &mut s.tcp, &s.ports)
}

fn learn_peer(s: &mut Stack) {
    let (reply, _) = receive(s, frame(EtherType::ARP, arp_request().as_bytes()));
    assert!(reply.is_some());
}

#[test]
fn arp_responder() {
    let mut s = stack();
    let (reply, accepted) = receive(&mut s, frame(EtherType::ARP, arp_request().as_bytes()));
    assert!(accepted.is_none());
    let reply = Ether2Frame::from_bytes(reply.expect("a request for the host is answered")).unwrap();
    assert_eq!(reply.dst(), peer_mac());
    assert_eq!(reply.src(), host_mac());
    assert_eq!(reply.dtype(), EtherType::ARP);
    let arp = ArpPacket::from_bytes(reply.data().to_vec()).unwrap();
    assert_eq!(arp.opcode(), Some(ArpOpcode::ArpReply));
    assert_eq!(arp.smac(), host_mac());
    assert_eq!(arp.sip(), host_ip());
    assert_eq!(arp.tmac(), peer_mac());
    assert_eq!(arp.tip(), peer_ip());
    assert_eq!(arp.hw_type(), 1);
    assert_eq!(arp.proto(), EtherType::IPv4);
    // The sender was learned.
    assert_eq!(s.arp.cached(peer_ip()), Some(peer_mac()));
}

#[test]
fn arp_reply_is_learned_and_not_answered() {
    let mut s = stack();
    let mut p = arp_request();
    p.set_opcode(ArpOpcode::ArpReply);
    let (reply, _) = receive(&mut s, frame(EtherType::ARP, p.as_bytes()));
    assert!(reply.is_none());
    assert_eq!(s.arp.cached(peer_ip()), Some(peer_mac()));
}

#[test]
fn arp_reply_for_another_host_is_learned() {
    let mut s = stack();
    let mut p = arp_request();
    p.set_opcode(ArpOpcode::ArpReply);
    p.set_tip(Ipv4Addr::new(192, 168, 100, 99));
    let (reply, _) = receive(&mut s, frame(EtherType::ARP, p.as_bytes()));
    assert!(reply.is_none());
    assert_eq!(s.arp.cached(peer_ip()), Some(peer_mac()));
}

#[test]
fn arp_for_another_host_is_ignored() {
    let mut s = stack();
    let mut p = arp_request();
    p.set_tip(Ipv4Addr::new(192, 168, 100, 99));
    let (reply, _) = receive(&mut s, frame(EtherType::ARP, p.as_bytes()));
    assert!(reply.is_none());
    assert_eq!(s.arp.cached(peer_ip()), None);
}

#[test]
fn arp_resolution_asks_five_times() {
    let s = stack();
    let target = Ipv4Addr::new(192, 168, 100, 7);
    for asked in 0..5 {
        match s.arp.resolve_ip(target, host_ip(), asked) {
            Resolve::Query(f) => {
                assert_eq!(f.dst(), Mac::multicast());
                assert_eq!(f.src(), host_mac());
                assert_eq!(f.dtype(), EtherType::ARP);
                let q = ArpPacket::from_bytes(f.data().to_vec()).unwrap();
                assert_eq!(q.opcode(), Some(ArpOpcode::ArpRequest));
                assert_eq!(q.tip(), target);
                assert_eq!(q.sip(), host_ip());
                assert_eq!(q.smac(), host_mac());
                assert_eq!(q.tmac(), Mac::multicast());
            }
            _ => panic!("a request is due"),
        }
    }
    assert!(matches!(s.arp.resolve_ip(target, host_ip(), 5), Resolve::Failed));
    assert!(matches!(
        s.arp.resolve_ip(target, Ipv4Addr::new(10, 0, 0, 1), 0),
        Resolve::Failed
    ));
}

#[test]
fn arp_resolution_finds_a_learned_peer() {
    let mut s = stack();
    learn_peer(&mut s);
    match s.arp.resolve_ip(peer_ip(), host_ip(), 0) {
        Resolve::Found(m) => assert_eq!(m, peer_mac()),
        _ => panic!("the peer is known"),
    }
    assert_eq!(s.arp.resolve_ip_local(host_ip()), Some(host_mac()));
    assert_eq!(s.arp.resolve_ip_local(peer_ip()), None);
}

#[test]
fn icmp_echo() {
    let mut s = stack();
    let mut echo = Icmp::zeroed();
    echo.set_packet_type(IcmpType::Echo);
    echo.set_identifier(0x1234);
    echo.set_seq(1);
    echo.set_data(b"hello");
    echo.set_checksum();
    let (reply, _) = receive(
        &mut s,
        frame(EtherType::IPv4, &ip_packet(Ipv4Proto::ICMP, &echo.duplicate().into_bytes())),
    );
    let reply = Ether2Frame::from_bytes(reply.expect("an echo is answered")).unwrap();
    assert_eq!(reply.dst(), peer_mac());
    assert_eq!(reply.src(), host_mac());
    assert_eq!(reply.dtype(), EtherType::IPv4);
    let raw = reply.data().to_vec();
    assert_eq!(u32_to_u16(checksum(&raw[..20])), 0);
    let ip = Ipv4::from_bytes(raw).unwrap();
    assert_eq!(ip.version(), 4);
    assert_eq!(ip.hdr_len(), 5);
    assert_eq!(ip.id(), 0);
    assert_eq!(ip.ttl(), 64);
    assert_eq!(ip.as_bytes()[6], 0x40);
    assert_eq!(ip.proto(), Ipv4Proto::ICMP);
    assert_eq!(ip.sip(), host_ip());
    assert_eq!(ip.dip(), peer_ip());
    assert_eq!(ip.len(), 20 + 8 + 5);
    let icmp = Icmp::from_bytes(ip.data().to_vec()).unwrap();
    assert_eq!(icmp.packet_type(), Some(IcmpType::EchoReply));
    assert_eq!(icmp.identifier(), 0x1234);
    assert_eq!(icmp.seq(), 1);
    assert_eq!(icmp.data(), b"hello");
    assert_eq!(u32_to_u16(checksum(&icmp.into_inner())), 0);

    // The next reply takes the next identification.
    let (reply, _) = receive(
        &mut s,
        frame(EtherType::IPv4, &ip_packet(Ipv4Proto::ICMP, &echo.into_bytes())),
    );
    let reply = Ether2Frame::from_bytes(reply.unwrap()).unwrap();
    assert_eq!(Ipv4::from_bytes(reply.data().to_vec()).unwrap().id(), 1);
}

#[test]
fn icmp_layer_answers_only_an_echo() {
    let layer = IcmpLayer::new();
    let ctx = Ipv4::zeroed();
    let mut p = Icmp::zeroed();
    p.set_packet_type(IcmpType::EchoReply);
    assert!(layer.handle_packet(p, &ctx).is_none());
    let other = Icmp::from_bytes(vec![3, 0, 0, 0, 0, 0, 0, 0]).unwrap();
    assert!(layer.handle_packet(other, &ctx).is_none());
    let mut echo = Icmp::zeroed();
    echo.set_packet_type(IcmpType::Echo);
    let reply = layer.handle_packet(echo, &ctx).unwrap();
    assert_eq!(reply.packet_type(), Some(IcmpType::EchoReply));
    assert_eq!(reply.into_bytes(), vec![0, 0, 0xff, 0xff, 0, 0, 0, 0]);
}

#[test]
fn packet_for_another_address_is_dropped() {
    let mut s = stack();
    let mut p = Ipv4::from_bytes(ip_packet(Ipv4Proto::ICMP, &[8, 0, 0, 0, 0, 0, 0, 0])).unwrap();
    p.set_dip(Ipv4Addr::new(192, 168, 100, 99));
    let (reply, _) = receive(&mut s, frame(EtherType::IPv4, p.as_bytes()));
    assert!(reply.is_none());
}

#[test]
fn unknown_types_and_short_frames_are_dropped() {
    let mut s = stack();
    assert!(receive(&mut s, frame(EtherType::Ipv6, &[0u8; 40])).0.is_none());
    assert!(receive(&mut s, vec![0u8; 13]).0.is_none());
    assert!(receive(&mut s, frame(EtherType::IPv4, &[0u8; 19])).0.is_none());
    assert!(receive(&mut s, frame(EtherType::ARP, &[0u8; 27])).0.is_none());
    assert!(receive(&mut s, frame(EtherType::IPv4, &ip_packet(Ipv4Proto::UDP, &[0u8; 8]))).0.is_none());
    assert!(receive(&mut s, frame(EtherType::IPv4, &ip_packet(Ipv4Proto::ICMP, &[8u8; 7]))).0.is_none());
}

#[test]
fn tcp_accept_and_echo_through_the_stack() {
    let mut s = stack();
    learn_peer(&mut s);
    let listener = TcpListener::bind(&mut s.ports, 1234).expect("the port is free");
    assert_eq!(listener.port(), 1234);

    let (reply, accepted) =
        receive(&mut s, frame(EtherType::IPv4, &ip_packet(Ipv4Proto::TCP, &segment(&[TcpFlag::SYN], 1000, 0, &[]))));
    let accepted = accepted.expect("the SYN opens a connection");
    let stream = listener.accept(&accepted).expect("the stream is for this listener");
    assert_eq!(stream.peer_ip(&s.tcp), peer_ip());
    let reply = Ether2Frame::from_bytes(reply.expect("the SYN is answered")).unwrap();
    let ip = Ipv4::from_bytes(reply.data().to_vec()).unwrap();
    assert_eq!(ip.proto(), Ipv4Proto::TCP);
    assert_eq!(ip.sip(), host_ip());
    assert_eq!(ip.dip(), peer_ip());
    let syn_ack = Tcp::from_bytes(ip.data().to_vec()).unwrap();
    assert_eq!(syn_ack.flags(), 0x12);
    assert_eq!(syn_ack.seq(), 0);
    assert_eq!(syn_ack.ack(), 1001);
    assert!(s.tcp.contains(stream.key()));
    assert_eq!(
        stream.key(),
        TcpLayer::key_of(peer_ip(), 40000, host_ip(), 1234)
    );

    let (reply, accepted) =
        receive(&mut s, frame(EtherType::IPv4, &ip_packet(Ipv4Proto::TCP, &segment(&[TcpFlag::ACK], 1001, 1, &[]))));
    assert!(reply.is_none());
    assert!(accepted.is_none());

    let mut buffer = vec![0u8; 8];
    assert!(matches!(stream.read(&mut s.tcp, &mut buffer, waker()), ReadProgress::Pending));

    let (reply, _) = receive(
        &mut s,
        frame(
            EtherType::IPv4,
            &ip_packet(Ipv4Proto::TCP, &segment(&[TcpFlag::PSH, TcpFlag::ACK], 1001, 1, b"ping")),
        ),
    );
    let reply = Ether2Frame::from_bytes(reply.expect("data is acknowledged")).unwrap();
    let ack = Tcp::from_bytes(Ipv4::from_bytes(reply.data().to_vec()).unwrap().data().to_vec()).unwrap();
    assert_eq!(ack.flags(), 0x10);
    assert_eq!(ack.seq(), 1);
    assert_eq!(ack.ack(), 1005);

    match stream.read(&mut s.tcp, &mut buffer, waker()) {
        ReadProgress::Ready(n) => {
            assert_eq!(n, 4);
            assert_eq!(&buffer[..4], b"ping");
        }
        ReadProgress::Pending => panic!("data waits"),
    }

    let out = stream.write(&mut s.tcp, b"ping");
    assert_eq!(out.flags(), 0x18);
    assert_eq!(out.seq(), 1);
    assert_eq!(out.ack(), 1005);
    assert_eq!(out.data(), b"ping");

    let framed = s
        .ip
        .handle_tx(out.as_bytes(), Ipv4Proto::TCP, peer_ip(), host_ip(), &s.arp)
        .expect("both addresses are known");
    assert_eq!(framed.dst(), peer_mac());
    assert_eq!(framed.src(), host_mac());
    assert_eq!(framed.dtype(), EtherType::IPv4);
    let sent = Ipv4::from_bytes(framed.data().to_vec()).unwrap();
    assert_eq!(sent.sip(), host_ip());
    assert_eq!(sent.dip(), peer_ip());
    assert_eq!(sent.data(), out.as_bytes());
}

#[test]
fn syn_for_an_unbound_port_is_dropped() {
    let mut s = stack();
    learn_peer(&mut s);
    let (reply, accepted) =
        receive(&mut s, frame(EtherType::IPv4, &ip_packet(Ipv4Proto::TCP, &segment(&[TcpFlag::SYN], 1000, 0, &[]))));
    assert!(reply.is_none());
    assert!(accepted.is_none());
    assert!(!s.tcp.contains(TcpLayer::key_of(peer_ip(), 40000, host_ip(), 1234)));
}

#[test]
fn binding_a_port_twice_fails() {
    let mut ports = Ports::new();
    assert!(TcpListener::bind(&mut ports, 80).is_ok());
    assert!(TcpListener::bind(&mut ports, 80).is_err());
    assert!(TcpListener::bind(&mut ports, 81).is_ok());
    assert_eq!(ports.listener(80), Some(80));
    assert_eq!(ports.listener(82), None);
}

#[test]
fn egress_drops_without_addresses() {
    let mut s = stack();
    assert!(s
        .ip
        .handle_tx(b"x", Ipv4Proto::TCP, peer_ip(), host_ip(), &s.arp)
        .is_none());
    learn_peer(&mut s);
    assert!(s
        .ip
        .handle_tx(b"x", Ipv4Proto::TCP, peer_ip(), Ipv4Addr::new(10, 0, 0, 1), &s.arp)
        .is_none());
    let f = s.ip.handle_tx(b"x", Ipv4Proto::TCP, peer_ip(), host_ip(), &s.arp).unwrap();
    // Two identifications were used up by the packets that were dropped.
    assert_eq!(Ipv4::from_bytes(f.data().to_vec()).unwrap().id(), 2);
}

#[test]
fn tcp_layer_frames_a_segment_for_sending() {
    let mut s = stack();
    learn_peer(&mut s);
    let seg = Tcp::from_bytes(segment(&[TcpFlag::ACK], 1, 1001, b"out")).unwrap();
    let bytes = seg.as_bytes().to_vec();
    let f = s
        .tcp
        .handle_tx(seg, host_ip(), peer_ip(), &mut s.ip, &s.arp)
        .expect("both addresses are known");
    assert_eq!(f.dst(), peer_mac());
    assert_eq!(f.src(), host_mac());
    let sent = Ipv4::from_bytes(f.data().to_vec()).unwrap();
    assert_eq!(sent.proto(), Ipv4Proto::TCP);
    assert_eq!(sent.sip(), host_ip());
    assert_eq!(sent.dip(), peer_ip());
    assert_eq!(sent.id(), 0);
    assert_eq!(sent.len() as usize, 20 + bytes.len());
    assert_eq!(sent.data(), &bytes[..]);
}

#[test]
fn ethernet_picks_the_queue_of_the_destination() {
    let s = stack();
    let mut f = Ether2Frame::zeroed();
    f.set_dst(host_mac());
    assert_eq!(s.ethernet.handle_tx(&f), Some(7));
    f.set_dst(peer_mac());
    assert_eq!(s.ethernet.handle_tx(&f), None);
    assert_eq!(s.device.get_sender(), 7);
    assert_eq!(s.device.device_mac(), host_mac());
    assert_eq!(s.device.on_queued(f.duplicate()), f.into_bytes());
}

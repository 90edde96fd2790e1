//! The ICMP layer: the answer to an echo.

use vstd::prelude::*;
use crate::net::wire::icmp::{with_echo_checksum, Icmp, IcmpType};
use crate::net::wire::ipv4::Ipv4;

verus! {

/// The echo reply to the echo `p`: the same packet with the reply type and
/// its checksum computed anew.
pub open spec fn echo_reply(p: Seq<u8>) -> Seq<u8> {
    with_echo_checksum(p.update(0, 0u8))
}

/// Whether `p` is an echo.
pub open spec fn is_echo(p: Seq<u8>) -> bool {
    p[0] == 8
}

/// The ICMP layer.
pub struct IcmpLayer;

impl IcmpLayer {
    /// A layer.
    pub fn new() -> (r: Self) {
        IcmpLayer
    }

    /// Answers an echo with its reply, and anything else with nothing.
    pub fn handle_packet(&self, packet: Icmp, _ctx: &Ipv4) -> (r: Option<Icmp>)
        requires
            packet.wf(),
        ensures
            r is Some <==> is_echo(packet@),
            r is Some ==> r->Some_0@ == echo_reply(packet@),
    {
        match packet.packet_type() {
            Some(IcmpType::Echo) => {
                let mut reply = packet;
                reply.set_packet_type(IcmpType::EchoReply);
                reply.set_checksum();
                Some(reply)
            },
            _ => None,
        }
    }
}

/// The reply to an echo differs from it in the type and the checksum alone:
/// identifier, sequence number and payload come back as they were sent.
pub proof fn lemma_echo_reply_keeps_payload(p: Seq<u8>)
    requires
        p.len() >= 8,
    ensures
        echo_reply(p).len() == p.len(),
        echo_reply(p)[0] == 0,
        echo_reply(p)[1] == p[1],
        forall|i: int| 4 <= i < p.len() ==> echo_reply(p)[i] == p[i],
{
}

} // verus!

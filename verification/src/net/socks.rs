//! Listeners and streams: the socket surface of the TCP layer.

use vstd::prelude::*;
use core::task::Waker;
use crate::net::table::{no_entries, table_entries, table_get, table_insert, table_new, KeyTable};
use crate::net::tcp::{data_segment, Accepted, ConnView, TcpLayer};
use crate::net::wire::ipaddr::Ipv4Addr;
use crate::net::wire::tcp::Tcp;

verus! {

/// The registry of listeners: the local ports that are bound, each with the
/// number of its listener.
pub struct Ports {
    bound: KeyTable,
}

impl Ports {
    /// The bound ports, each with the number of its listener.
    pub closed spec fn view(&self) -> Map<u128, u64> {
        table_entries(self.bound)
    }

    /// A registry in which no port is bound.
    pub fn new() -> (r: Self)
        ensures
            r@ == no_entries(),
    {
        Ports { bound: table_new() }
    }

    /// The number of the listener bound to `port`, if one is.
    pub fn listener(&self, port: u16) -> (r: Option<u64>)
        ensures
            r == if self@.dom().contains(port as u128) {
                Some(self@[port as u128])
            } else {
                None
            },
    {
        table_get(&self.bound, port as u128)
    }
}

/// A listener bound to a local port.
pub struct TcpListener {
    port: u16,
}

impl TcpListener {
    /// The port that the listener is bound to.
    pub closed spec fn spec_port(&self) -> u16 {
        self.port
    }

    /// Binds a listener to `port`, unless one is bound to it already. The
    /// listener's number is its port.
    pub fn bind(ports: &mut Ports, port: u16) -> (r: Result<Self, ()>)
        ensures
            r is Err <==> old(ports)@.dom().contains(port as u128),
            r is Err ==> final(ports)@ == old(ports)@,
            r is Ok ==> final(ports)@ == old(ports)@.insert(port as u128, port as u64)
                && r->Ok_0.spec_port() == port,
    {
        if ports.listener(port).is_some() {
            return Err(());
        }
        table_insert(&mut ports.bound, port as u128, port as u64);
        Ok(TcpListener { port })
    }

    /// The port that the listener is bound to.
    pub fn port(&self) -> (r: u16)
        ensures
            r == self.spec_port(),
    {
        self.port
    }

    /// The stream of an accepted connection, where it is for this listener.
    pub fn accept(&self, event: &Accepted) -> (r: Option<TcpStream>)
        ensures
            r is Some <==> event.listener == self.spec_port() as u64,
            r is Some ==> r->Some_0.spec_key() == event.key,
    {
        if event.listener == self.port as u64 {
            Some(TcpStream { key: event.key })
        } else {
            None
        }
    }
}

/// What a read from a stream came to.
pub enum ReadProgress {
    /// So many bytes were moved into the buffer.
    Ready(usize),
    /// Nothing waits to be read: the reader was registered and is woken when
    /// payload arrives.
    Pending,
}

/// One end of an accepted connection.
pub struct TcpStream {
    key: u128,
}

impl TcpStream {
    /// The key of the connection behind the stream.
    pub closed spec fn spec_key(&self) -> u128 {
        self.key
    }

    /// The key of the connection behind the stream.
    pub fn key(&self) -> (r: u128)
        ensures
            r == self.spec_key(),
    {
        self.key
    }

    /// The address of the peer at the other end of the stream.
    pub fn peer_ip(&self, layer: &TcpLayer) -> (r: Ipv4Addr)
        requires
            layer.wf(),
            layer@.dom().contains(self.spec_key()),
        ensures
            r@ == layer@[self.spec_key()].remote_ip,
    {
        layer.remote_ip(self.key)
    }

    /// Reads received bytes into the front of `buffer`; where none wait, the
    /// reader `waker` is registered instead.
    pub fn read(&self, layer: &mut TcpLayer, buffer: &mut [u8], waker: Waker) -> (r:
        ReadProgress)
        requires
            old(layer).wf(),
            old(layer)@.dom().contains(self.spec_key()),
        ensures
            final(layer).wf(),
            ({
                let c = old(layer)@[self.spec_key()];
                let n = if old(buffer)@.len() <= c.data.len() {
                    old(buffer)@.len() as int
                } else {
                    c.data.len() as int
                };
                if c.data.len() == 0 {
                    &&& r is Pending
                    &&& final(buffer)@ == old(buffer)@
                    &&& final(layer)@ == old(layer)@.insert(
                        self.spec_key(),
                        ConnView { has_waker: true, ..c },
                    )
                } else {
                    &&& r == ReadProgress::Ready(n as usize)
                    &&& final(buffer)@ == c.data.subrange(0, n) + old(buffer)@.subrange(
                        n,
                        old(buffer)@.len() as int,
                    )
                    &&& final(layer)@ == old(layer)@.insert(
                        self.spec_key(),
                        ConnView { data: c.data.subrange(n, c.data.len() as int), ..c },
                    )
                }
            }),
    {
        layer.read(self.key, buffer, waker)
    }

    /// Makes the data segment that carries `item` and moves the connection's
    /// send position past it. The segment is the caller's to send.
    pub fn write(&self, layer: &mut TcpLayer, item: &[u8]) -> (r: Tcp)
        requires
            old(layer).wf(),
            old(layer)@.dom().contains(self.spec_key()),
        ensures
            final(layer).wf(),
            r@ == data_segment(old(layer)@[self.spec_key()], item@),
            final(layer)@ == old(layer)@.insert(
                self.spec_key(),
                ConnView {
                    snd_nxt: old(layer)@[self.spec_key()].snd_nxt.wrapping_add(
                        (item@.len() % 0x1_0000_0000) as u32,
                    ),
                    last_ipv4_id: old(layer)@[self.spec_key()].last_ipv4_id.wrapping_add(1),
                    ..old(layer)@[self.spec_key()]
                },
            ),
    {
        layer.write(self.key, item)
    }
}

} // verus!

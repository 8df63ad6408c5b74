//! A socket-abstraction layer for constrained devices that talk to the
//! network through a remote radio/modem module.
//!
//! The crate manages the local picture of a bounded number of sockets: a
//! fixed-capacity registry of socket slots addressed by small-integer
//! handles, a circular receive buffer per socket, per-protocol lifecycle
//! state machines, and a UDP listener that demultiplexes one bound port
//! into many logical peer connections.
//!
//! Time is injected: every operation that depends on the clock takes the
//! current monotonic tick count as an argument, so any monotonic time
//! source can drive the state machines.

use vstd::prelude::*;

mod addr;
mod meta;
mod ring_buffer;
mod set;
pub mod tcp;
pub mod udp;
pub mod udp_listener;

pub use self::addr::SocketAddr;
pub use self::meta::Meta as SocketMeta;
pub use self::ring_buffer::RingBuffer;
pub use self::set::{Handle as SocketHandle, SocketSet};
pub use tcp::{State as TcpState, TcpSocket};
pub use udp::{State as UdpState, UdpSocket};
pub use udp_listener::UdpListener;

verus! {

/// The error type for the networking stack.
#[non_exhaustive]
#[derive(Debug, Clone, Copy, PartialEq, Eq, Structural)]
pub enum Error {
    /// An operation cannot proceed because a buffer is empty or full.
    Exhausted,
    /// An operation is not permitted in the current state.
    Illegal,
    /// An endpoint or address of a remote host could not be translated to a
    /// lower level address.
    Unaddressable,
    SocketClosed,
    BadLength,
    NotBound,
    ListenerError,
    SocketSetFull,
    InvalidSocket,
    DuplicateSocket,
    Timeout,
}

pub type Result<T> = core::result::Result<T, Error>;

#[non_exhaustive]
#[derive(Debug, Clone, Copy, PartialEq, Eq, Structural)]
pub enum SocketType {
    Udp,
    Tcp,
}

/// A network socket.
///
/// This enumeration abstracts the supported socket protocols. To downcast
/// a `Socket` value to a concrete socket, use the [`AnySocket`] trait,
/// e.g. to get a `UdpSocket`, call `UdpSocket::downcast(socket)`.
#[non_exhaustive]
#[derive(Debug)]
pub enum Socket<const L: usize> {
    Udp(UdpSocket<L>),
    Tcp(TcpSocket<L>),
}

impl<const L: usize> Socket<L> {
    /// Validity of the inner socket's buffer bookkeeping.
    pub open spec fn wf(self) -> bool {
        match self {
            Socket::Udp(s) => s.wf(),
            Socket::Tcp(s) => s.wf(),
        }
    }

    /// The handle under which the registry addresses this socket.
    pub open spec fn spec_handle(self) -> SocketHandle {
        match self {
            Socket::Udp(s) => s.spec_handle(),
            Socket::Tcp(s) => s.spec_handle(),
        }
    }

    /// The protocol of the inner socket.
    pub open spec fn spec_type(self) -> SocketType {
        match self {
            Socket::Udp(_) => SocketType::Udp,
            Socket::Tcp(_) => SocketType::Tcp,
        }
    }

    /// The buffered received bytes of the inner socket.
    pub open spec fn spec_rx(self) -> Seq<u8> {
        match self {
            Socket::Udp(s) => s.rx_buffer@,
            Socket::Tcp(s) => s.rx_buffer@,
        }
    }

    /// The pending-byte counter of the inner socket.
    pub open spec fn spec_available_data(self) -> usize {
        match self {
            Socket::Udp(s) => s.available_data,
            Socket::Tcp(s) => s.available_data,
        }
    }

    /// Whether the remote module is due to be polled at tick `now`.
    pub open spec fn spec_should_poll(self, now: u64) -> bool {
        match self {
            Socket::Udp(s) => s.spec_should_poll(now),
            Socket::Tcp(s) => s.spec_should_poll(now),
        }
    }

    /// Whether the socket may be reclaimed at tick `now`; only a
    /// TCP-style socket ever is.
    pub open spec fn spec_recyclable(self, now: u64) -> bool {
        match self {
            Socket::Udp(_) => false,
            Socket::Tcp(s) => s.spec_recyclable(now),
        }
    }

    /// Whether a receive on the inner socket can make progress.
    pub open spec fn spec_can_recv(self) -> bool {
        match self {
            Socket::Udp(s) => s.spec_can_recv(),
            Socket::Tcp(s) => s.spec_can_recv(),
        }
    }

    /// Return the socket handle.
    #[inline]
    pub fn handle(&self) -> (r: SocketHandle)
        ensures
            r == self.spec_handle(),
    {
        match self {
            Socket::Udp(s) => s.handle(),
            Socket::Tcp(s) => s.handle(),
        }
    }

    pub(crate) fn meta(&self) -> (r: &SocketMeta)
        ensures
            r.handle == self.spec_handle(),
    {
        match self {
            Socket::Udp(s) => &s.meta,
            Socket::Tcp(s) => &s.meta,
        }
    }

    /// The protocol of the inner socket.
    pub fn get_type(&self) -> (r: SocketType)
        ensures
            r == self.spec_type(),
    {
        match self {
            Socket::Tcp(_) => SocketType::Tcp,
            Socket::Udp(_) => SocketType::Udp,
        }
    }

    /// Decide whether the remote module should be polled for this socket
    /// at tick `now`, stamping `now` as the last poll time when so.
    pub fn should_update_available_data(&mut self, now: u64) -> (r: bool)
        ensures
            r == old(self).spec_should_poll(now),
            match (*old(self), *final(self)) {
                (Socket::Tcp(s0), Socket::Tcp(s1)) => s1 == (TcpSocket {
                    last_check_time: s1.last_check_time,
                    ..s0
                }) && (r ==> s1.last_check_time == Some(now)) && (!r ==> s1.last_check_time
                    == s0.last_check_time),
                (Socket::Udp(s0), Socket::Udp(s1)) => s1 == (UdpSocket {
                    last_check_time: s1.last_check_time,
                    ..s0
                }) && (r ==> s1.last_check_time == Some(now)) && (!r ==> s1.last_check_time
                    == s0.last_check_time),
                _ => false,
            },
    {
        match self {
            Socket::Tcp(s) => s.should_update_available_data(now),
            Socket::Udp(s) => s.should_update_available_data(now),
        }
    }

    /// The pending-byte counter of the inner socket.
    pub fn available_data(&self) -> (r: usize)
        ensures
            r == self.spec_available_data(),
    {
        match self {
            Socket::Tcp(s) => s.get_available_data(),
            Socket::Udp(s) => s.get_available_data(),
        }
    }

    /// Whether the socket is eligible for destruction at tick `now`.
    pub fn recycle(&self, now: u64) -> (r: bool)
        ensures
            r == self.spec_recyclable(now),
    {
        match self {
            Socket::Tcp(s) => s.recycle(now),
            Socket::Udp(s) => s.recycle(),
        }
    }

    /// Record that the remote closed the connection at tick `now`.
    pub fn closed_by_remote(&mut self, now: u64)
        ensures
            match (*old(self), *final(self)) {
                (Socket::Tcp(s0), Socket::Tcp(s1)) => s1 == (TcpSocket {
                    state: tcp::State::ShutdownForWrite(now),
                    available_data: 0,
                    ..s0
                }),
                (Socket::Udp(s0), Socket::Udp(s1)) => s1 == (UdpSocket {
                    state: udp::State::Closed,
                    available_data: 0,
                    ..s0
                }),
                _ => false,
            },
    {
        match self {
            Socket::Tcp(s) => s.closed_by_remote(now),
            Socket::Udp(s) => s.closed_by_remote(),
        }
    }

    /// Set the pending-byte counter.
    pub fn set_available_data(&mut self, available_data: usize)
        ensures
            match (*old(self), *final(self)) {
                (Socket::Tcp(s0), Socket::Tcp(s1)) => s1 == (TcpSocket {
                    available_data,
                    ..s0
                }),
                (Socket::Udp(s0), Socket::Udp(s1)) => s1 == (UdpSocket {
                    available_data,
                    ..s0
                }),
                _ => false,
            },
    {
        match self {
            Socket::Tcp(s) => s.set_available_data(available_data),
            Socket::Udp(s) => s.set_available_data(available_data),
        }
    }

    /// Push newly arrived bytes into the inner socket's receive buffer,
    /// returning how many were actually written.
    pub fn rx_enqueue_slice(&mut self, data: &[u8]) -> (count: usize)
        requires
            old(self).wf(),
        ensures
            final(self).wf(),
            count == if data@.len() <= L - old(self).spec_rx().len() {
                data@.len() as int
            } else {
                L - old(self).spec_rx().len()
            },
            final(self).spec_rx() == old(self).spec_rx() + data@.subrange(0, count as int),
            match (*old(self), *final(self)) {
                (Socket::Tcp(s0), Socket::Tcp(s1)) => s1 == (TcpSocket {
                    rx_buffer: s1.rx_buffer,
                    ..s0
                }),
                (Socket::Udp(s0), Socket::Udp(s1)) => s1 == (UdpSocket {
                    rx_buffer: s1.rx_buffer,
                    ..s0
                }),
                _ => false,
            },
    {
        match self {
            Socket::Tcp(s) => s.rx_enqueue_slice(data),
            Socket::Udp(s) => s.rx_enqueue_slice(data),
        }
    }

    /// Bytes of free space in the inner socket's receive buffer.
    pub fn rx_window(&self) -> (r: usize)
        requires
            self.wf(),
        ensures
            r == L - self.spec_rx().len(),
    {
        match self {
            Socket::Tcp(s) => s.rx_window(),
            Socket::Udp(s) => s.rx_window(),
        }
    }

    /// Whether a receive on the inner socket can make progress.
    pub fn can_recv(&self) -> (r: bool)
        requires
            self.wf(),
        ensures
            r == self.spec_can_recv(),
    {
        match self {
            Socket::Tcp(s) => s.can_recv(),
            Socket::Udp(s) => s.can_recv(),
        }
    }
}

/// A conversion trait for network sockets: recover the concrete socket
/// held by a [`Socket`] variant, as a borrow scoped to the call site.
pub trait AnySocket<const L: usize>: Sized {
    /// Whether `socket` holds this concrete socket type.
    spec fn spec_matches(socket: Socket<L>) -> bool;

    /// The concrete socket held by `socket`.
    spec fn spec_get(socket: Socket<L>) -> Self;

    /// The variant that wraps this concrete socket.
    spec fn spec_put(self) -> Socket<L>;

    /// Downcast to the concrete socket type, failing with
    /// `Error::Illegal` when `socket` holds the other protocol.
    fn downcast(socket: &mut Socket<L>) -> (r: Result<&mut Self>)
        ensures
            r is Ok <==> Self::spec_matches(*old(socket)),
            r matches Ok(inner) ==> *inner == Self::spec_get(*old(socket)) && *final(socket)
                == (*final(inner)).spec_put(),
            r matches Err(e) ==> e == Error::Illegal && *final(socket) == *old(socket),
    ;
}

impl<const L: usize> AnySocket<L> for TcpSocket<L> {
    open spec fn spec_matches(socket: Socket<L>) -> bool {
        socket matches Socket::Tcp(_)
    }

    open spec fn spec_get(socket: Socket<L>) -> Self {
        socket->Tcp_0
    }

    open spec fn spec_put(self) -> Socket<L> {
        Socket::Tcp(self)
    }

    fn downcast(socket: &mut Socket<L>) -> (r: Result<&mut Self>) {
        match socket {
            Socket::Tcp(ref mut s) => Ok(s),
            _ => Err(Error::Illegal),
        }
    }
}

impl<const L: usize> AnySocket<L> for UdpSocket<L> {
    open spec fn spec_matches(socket: Socket<L>) -> bool {
        socket matches Socket::Udp(_)
    }

    open spec fn spec_get(socket: Socket<L>) -> Self {
        socket->Udp_0
    }

    open spec fn spec_put(self) -> Socket<L> {
        Socket::Udp(self)
    }

    fn downcast(socket: &mut Socket<L>) -> (r: Result<&mut Self>) {
        match socket {
            Socket::Udp(ref mut s) => Ok(s),
            _ => Err(Error::Illegal),
        }
    }
}

impl<const L: usize> From<TcpSocket<L>> for Socket<L> {
    fn from(val: TcpSocket<L>) -> Self {
        Socket::Tcp(val)
    }
}

impl<const L: usize> vstd::std_specs::convert::FromSpecImpl<TcpSocket<L>> for Socket<L> {
    open spec fn obeys_from_spec() -> bool {
        true
    }

    open spec fn from_spec(val: TcpSocket<L>) -> Self {
        Socket::Tcp(val)
    }
}

impl<const L: usize> From<UdpSocket<L>> for Socket<L> {
    fn from(val: UdpSocket<L>) -> Self {
        Socket::Udp(val)
    }
}

impl<const L: usize> vstd::std_specs::convert::FromSpecImpl<UdpSocket<L>> for Socket<L> {
    open spec fn obeys_from_spec() -> bool {
        true
    }

    open spec fn from_spec(val: UdpSocket<L>) -> Self {
        Socket::Udp(val)
    }
}

} // verus!

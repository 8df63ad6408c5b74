//! The UDP listener / demultiplexer: routing metadata that lets a single
//! physical listening slot front many logical remote peers.
//!
//! Three fixed-capacity tables: a bound server handle maps to its port, a
//! bound port owns a bounded FIFO queue of pending peers awaiting
//! acceptance, and a peer address maps to the handle of an established
//! outgoing association so repeated sends to one peer reuse one logical
//! connection. The listener owns no sockets, only routing metadata.

use vstd::prelude::*;

use crate::addr::SocketAddr;
use crate::ring_buffer::RingBuffer;
use crate::set::Handle;
use crate::Error;
use crate::Result;

verus! {

/// A pending peer: the handle assigned to the connection and the remote
/// address it came from.
pub type Peer = (Handle, SocketAddr);

/// The demultiplexer for UDP server sockets: at most `N` bound ports, each
/// with a pending-peer queue of depth `L`, and at most `N` outgoing
/// address associations.
pub struct UdpListener<const N: usize, const L: usize> {
    /// Maps server socket handles to their bound ports.
    handles: Vec<(Handle, u16)>,
    /// Maps bound ports to their queues of pending peers.
    connections: Vec<(u16, RingBuffer<Peer, L>)>,
    /// Maps remote addresses to the handles of outgoing associations.
    outgoing: Vec<(SocketAddr, Handle)>,
}

impl<const N: usize, const L: usize> UdpListener<N, L> {
    /// The handle-to-port table, in binding order.
    pub closed spec fn handle_entries(self) -> Seq<(Handle, u16)> {
        self.handles@
    }

    /// The port-to-queue table, in binding order.
    pub closed spec fn conn_entries(self) -> Seq<(u16, RingBuffer<Peer, L>)> {
        self.connections@
    }

    /// The address-to-handle table of outgoing associations.
    pub closed spec fn out_entries(self) -> Seq<(SocketAddr, Handle)> {
        self.outgoing@
    }

    /// Validity: each table is within capacity and keyed uniquely, every
    /// bound handle's port owns a queue, and every queue is a valid
    /// buffer.
    pub open spec fn wf(self) -> bool {
        &&& self.handle_entries().len() <= N
        &&& self.conn_entries().len() <= N
        &&& self.out_entries().len() <= N
        &&& forall|i: int, j: int|
            #![trigger self.handle_entries()[i], self.handle_entries()[j]]
            0 <= i < self.handle_entries().len() && 0 <= j < self.handle_entries().len() && i != j
                ==> self.handle_entries()[i].0 != self.handle_entries()[j].0
        &&& forall|i: int, j: int|
            #![trigger self.conn_entries()[i], self.conn_entries()[j]]
            0 <= i < self.conn_entries().len() && 0 <= j < self.conn_entries().len() && i != j
                ==> self.conn_entries()[i].0 != self.conn_entries()[j].0
        &&& forall|i: int, j: int|
            #![trigger self.out_entries()[i], self.out_entries()[j]]
            0 <= i < self.out_entries().len() && 0 <= j < self.out_entries().len() && i != j
                ==> self.out_entries()[i].0 != self.out_entries()[j].0
        &&& forall|i: int|
            0 <= i < self.handle_entries().len() ==> self.spec_is_port_bound(
                (#[trigger] self.handle_entries()[i]).1,
            )
        &&& forall|i: int|
            0 <= i < self.conn_entries().len() ==> (#[trigger] self.conn_entries()[i]).1.wf()
    }

    /// Whether `handle` is a bound server handle.
    pub open spec fn spec_is_bound(self, handle: Handle) -> bool {
        exists|i: int|
            0 <= i < self.handle_entries().len() && (#[trigger] self.handle_entries()[i]).0
                == handle
    }

    /// The port that `handle` is bound to; meaningful when it is bound.
    pub open spec fn spec_handle_port(self, handle: Handle) -> u16 {
        let i = choose|i: int|
            0 <= i < self.handle_entries().len() && (#[trigger] self.handle_entries()[i]).0
                == handle;
        self.handle_entries()[i].1
    }

    /// Whether `port` owns a pending-peer queue.
    pub open spec fn spec_is_port_bound(self, port: u16) -> bool {
        exists|i: int|
            0 <= i < self.conn_entries().len() && (#[trigger] self.conn_entries()[i]).0 == port
    }

    /// The pending peers of `port`, in arrival order; meaningful when the
    /// port is bound.
    pub open spec fn spec_port_queue(self, port: u16) -> Seq<Peer> {
        let i = choose|i: int|
            0 <= i < self.conn_entries().len() && (#[trigger] self.conn_entries()[i]).0 == port;
        self.conn_entries()[i].1@
    }

    /// Whether an outgoing association is registered for `addr`.
    pub open spec fn spec_out_contains(self, addr: SocketAddr) -> bool {
        exists|i: int|
            0 <= i < self.out_entries().len() && (#[trigger] self.out_entries()[i]).0 == addr
    }

    /// The handle of the outgoing association registered for `addr`.
    pub open spec fn spec_get_outgoing(self, addr: SocketAddr) -> Option<Handle> {
        if self.spec_out_contains(addr) {
            let i = choose|i: int|
                0 <= i < self.out_entries().len() && (#[trigger] self.out_entries()[i]).0 == addr;
            Some(self.out_entries()[i].1)
        } else {
            None
        }
    }

    /// An empty listener: nothing bound, nothing pending, no outgoing
    /// associations.
    pub fn new() -> (r: Self)
        ensures
            r.wf(),
            r.handle_entries() == Seq::<(Handle, u16)>::empty(),
            r.conn_entries().len() == 0,
            r.out_entries() == Seq::<(SocketAddr, Handle)>::empty(),
    {
        UdpListener { handles: Vec::new(), connections: Vec::new(), outgoing: Vec::new() }
    }

    /// The index of `handle` in the handle table, if bound.
    fn find_handle(&self, handle: Handle) -> (r: Option<usize>)
        requires
            self.wf(),
        ensures
            match r {
                Some(i) => 0 <= i < self.handle_entries().len()
                    && self.handle_entries()[i as int].0 == handle,
                None => !self.spec_is_bound(handle),
            },
    {
        let n = self.handles.len();
        let mut i: usize = 0;
        while i < n
            invariant
                i <= n,
                n == self.handle_entries().len(),
                forall|j: int| 0 <= j < i ==> (#[trigger] self.handle_entries()[j]).0 != handle,
            decreases n - i,
        {
            if self.handles[i].0 == handle {
                return Some(i);
            }
            i = i + 1;
        }
        None
    }

    /// The index of `port` in the queue table, if bound.
    fn find_conn(&self, port: u16) -> (r: Option<usize>)
        requires
            self.wf(),
        ensures
            match r {
                Some(i) => 0 <= i < self.conn_entries().len()
                    && self.conn_entries()[i as int].0 == port,
                None => !self.spec_is_port_bound(port),
            },
    {
        let n = self.connections.len();
        let mut i: usize = 0;
        while i < n
            invariant
                i <= n,
                n == self.conn_entries().len(),
                forall|j: int| 0 <= j < i ==> (#[trigger] self.conn_entries()[j]).0 != port,
            decreases n - i,
        {
            if self.connections[i].0 == port {
                return Some(i);
            }
            i = i + 1;
        }
        None
    }

    /// The index of `addr` in the outgoing table, if registered.
    fn find_out(&self, addr: SocketAddr) -> (r: Option<usize>)
        requires
            self.wf(),
        ensures
            match r {
                Some(i) => 0 <= i < self.out_entries().len()
                    && self.out_entries()[i as int].0 == addr,
                None => !self.spec_out_contains(addr),
            },
    {
        let n = self.outgoing.len();
        let mut i: usize = 0;
        while i < n
            invariant
                i <= n,
                n == self.out_entries().len(),
                forall|j: int| 0 <= j < i ==> (#[trigger] self.out_entries()[j]).0 != addr,
            decreases n - i,
        {
            if self.outgoing[i].0 == addr {
                return Some(i);
            }
            i = i + 1;
        }
        None
    }

    /// Bind a server handle to a port, allocating the port's empty
    /// pending-peer queue.
    ///
    /// Fails with `Error::ListenerError` when the handle or the port is
    /// already bound, or when either table is at capacity.
    pub fn bind(&mut self, handle: Handle, port: u16) -> (r: Result<()>)
        requires
            old(self).wf(),
        ensures
            final(self).wf(),
            r is Ok <==> !old(self).spec_is_bound(handle) && !old(self).spec_is_port_bound(port)
                && old(self).handle_entries().len() < N && old(self).conn_entries().len() < N,
            r matches Err(e) ==> e == Error::ListenerError && *final(self) == *old(self),
            r is Ok ==> {
                &&& final(self).handle_entries() == old(self).handle_entries().push(
                    (handle, port),
                )
                &&& final(self).conn_entries().len() == old(self).conn_entries().len() + 1
                &&& forall|i: int|
                    0 <= i < old(self).conn_entries().len() ==> final(self).conn_entries()[i]
                        == old(self).conn_entries()[i]
                &&& final(self).conn_entries().last().0 == port
                &&& final(self).conn_entries().last().1@ == Seq::<Peer>::empty()
                &&& final(self).out_entries() == old(self).out_entries()
                &&& final(self).spec_is_bound(handle)
                &&& final(self).spec_handle_port(handle) == port
                &&& final(self).spec_is_port_bound(port)
                &&& final(self).spec_port_queue(port) == Seq::<Peer>::empty()
            },
    {
        if self.find_handle(handle).is_some() {
            return Err(Error::ListenerError);
        }
        if self.find_conn(port).is_some() {
            return Err(Error::ListenerError);
        }
        if self.handles.len() >= N || self.connections.len() >= N {
            return Err(Error::ListenerError);
        }
        self.handles.push((handle, port));
        let queue: RingBuffer<Peer, L> = RingBuffer::new();
        self.connections.push((port, queue));
        proof {
            let hs = self.handle_entries();
            let cs = self.conn_entries();
            assert(hs[hs.len() - 1].0 == handle);
            assert(cs[cs.len() - 1].0 == port);
            assert(self.spec_is_bound(handle));
            assert(self.spec_is_port_bound(port));
            assert forall|i: int, j: int|
                #![trigger hs[i], hs[j]]
                0 <= i < hs.len() && 0 <= j < hs.len() && i != j implies hs[i].0 != hs[j].0 by {
                if i < hs.len() - 1 && j < hs.len() - 1 {
                    assert(old(self).handle_entries()[i] == hs[i]);
                    assert(old(self).handle_entries()[j] == hs[j]);
                } else if i == hs.len() - 1 && 0 <= j < hs.len() - 1 {
                    assert(!old(self).spec_is_bound(handle));
                    assert(old(self).handle_entries()[j] == hs[j]);
                } else if j == hs.len() - 1 && 0 <= i < hs.len() - 1 {
                    assert(!old(self).spec_is_bound(handle));
                    assert(old(self).handle_entries()[i] == hs[i]);
                }
            }
            assert forall|i: int, j: int|
                #![trigger cs[i], cs[j]]
                0 <= i < cs.len() && 0 <= j < cs.len() && i != j implies cs[i].0 != cs[j].0 by {
                if i < cs.len() - 1 && j < cs.len() - 1 {
                    assert(old(self).conn_entries()[i] == cs[i]);
                    assert(old(self).conn_entries()[j] == cs[j]);
                } else if i == cs.len() - 1 && 0 <= j < cs.len() - 1 {
                    assert(!old(self).spec_is_port_bound(port));
                    assert(old(self).conn_entries()[j] == cs[j]);
                } else if j == cs.len() - 1 && 0 <= i < cs.len() - 1 {
                    assert(!old(self).spec_is_port_bound(port));
                    assert(old(self).conn_entries()[i] == cs[i]);
                }
            }
            assert forall|i: int|
                0 <= i < hs.len() implies self.spec_is_port_bound((#[trigger] hs[i]).1) by {
                if i < hs.len() - 1 {
                    assert(old(self).handle_entries()[i] == hs[i]);
                    assert(old(self).spec_is_port_bound(hs[i].1));
                    let w = choose|w: int|
                        0 <= w < old(self).conn_entries().len() && (#[trigger] old(self).conn_entries()[w]).0 == hs[i].1;
                    assert(cs[w].0 == hs[i].1);
                }
            }
            assert forall|i: int|
                0 <= i < cs.len() implies (#[trigger] cs[i]).1.wf() by {
                if i < cs.len() - 1 {
                    assert(old(self).conn_entries()[i] == cs[i]);
                }
            }
            let hi = choose|i: int| 0 <= i < hs.len() && (#[trigger] hs[i]).0 == handle;
            if hi != hs.len() - 1 {
                assert(old(self).handle_entries()[hi] == hs[hi]);
                assert(old(self).spec_is_bound(handle));
            }
            assert(self.spec_handle_port(handle) == port);
            let ci = choose|i: int| 0 <= i < cs.len() && (#[trigger] cs[i]).0 == port;
            if ci != cs.len() - 1 {
                assert(old(self).conn_entries()[ci] == cs[ci]);
                assert(old(self).spec_is_port_bound(port));
            }
            assert(self.spec_port_queue(port) =~= Seq::<Peer>::empty());
        }
        Ok(())
    }

    /// Returns true if `port` is a bound UDP server port.
    pub fn is_port_bound(&self, port: u16) -> (r: bool)
        requires
            self.wf(),
        ensures
            r == self.spec_is_port_bound(port),
    {
        self.find_conn(port).is_some()
    }

    /// Returns true if `handle` is a bound UDP server handle.
    pub fn is_bound(&self, handle: Handle) -> (r: bool)
        requires
            self.wf(),
        ensures
            r == self.spec_is_bound(handle),
    {
        self.find_handle(handle).is_some()
    }

    /// Borrow the pending-peer queue of `port`, to enqueue an arrival or
    /// inspect what is pending; `None` when the port is not bound.
    pub fn incoming(&mut self, port: u16) -> (r: Option<&mut RingBuffer<Peer, L>>)
        requires
            old(self).wf(),
        ensures
            r is None <==> !old(self).spec_is_port_bound(port),
            r is None ==> *final(self) == *old(self),
            r matches Some(q) ==> {
                &&& (*q).wf()
                &&& exists|i: int|
                    {
                        &&& 0 <= i < old(self).conn_entries().len()
                        &&& (#[trigger] old(self).conn_entries()[i]).0 == port
                        &&& old(self).conn_entries()[i].1 == *q
                        &&& final(self).conn_entries() == old(self).conn_entries().update(
                            i,
                            (port, *final(q)),
                        )
                    }
                &&& (*q)@ == old(self).spec_port_queue(port)
                &&& final(self).handle_entries() == old(self).handle_entries()
                &&& final(self).out_entries() == old(self).out_entries()
            },
    {
        let found = self.find_conn(port);
        match found {
            None => None,
            Some(i) => {
                proof {
                    let c = choose|c: int|
                        0 <= c < self.conn_entries().len() && (#[trigger] self.conn_entries()[c]).0 == port;
                    assert(self.conn_entries()[c] == self.conn_entries()[i as int]);
                }
                let entry = &mut self.connections[i];
                Some(&mut entry.1)
            },
        }
    }

    /// See if a pending peer is available for the server socket `handle`.
    ///
    /// Fails with `Error::NotBound` when `handle` is not bound.
    pub fn available(&self, handle: Handle) -> (r: Result<bool>)
        requires
            self.wf(),
        ensures
            r is Ok <==> self.spec_is_bound(handle),
            r matches Err(e) ==> e == Error::NotBound,
            r matches Ok(b) ==> b == (self.spec_port_queue(self.spec_handle_port(handle)).len()
                > 0),
    {
        let hi = match self.find_handle(handle) {
            Some(i) => i,
            None => {
                return Err(Error::NotBound);
            },
        };
        let port = self.handles[hi].1;
        proof {
            let c = choose|c: int|
                0 <= c < self.handle_entries().len() && (#[trigger] self.handle_entries()[c]).0
                    == handle;
            assert(self.handle_entries()[c] == self.handle_entries()[hi as int]);
            assert(self.spec_handle_port(handle) == port);
        }
        let ci = match self.find_conn(port) {
            Some(i) => i,
            None => {
                return Err(Error::NotBound);
            },
        };
        proof {
            let c = choose|c: int|
                0 <= c < self.conn_entries().len() && (#[trigger] self.conn_entries()[c]).0
                    == port;
            assert(self.conn_entries()[c] == self.conn_entries()[ci as int]);
        }
        Ok(!self.connections[ci].1.is_empty())
    }

    /// Gives the first pending peer for the server socket `handle`,
    /// without dequeuing it. To advance to the next peer, accept the
    /// first.
    ///
    /// Fails with `Error::NotBound` when `handle` is not bound and with
    /// `Error::Exhausted` when no peer is pending.
    pub fn peek_remote(&self, handle: Handle) -> (r: Result<Peer>)
        requires
            self.wf(),
        ensures
            r is Ok <==> self.spec_is_bound(handle) && self.spec_port_queue(
                self.spec_handle_port(handle),
            ).len() > 0,
            !self.spec_is_bound(handle) ==> r == Err::<Peer, Error>(Error::NotBound),
            self.spec_is_bound(handle) && self.spec_port_queue(
                self.spec_handle_port(handle),
            ).len() == 0 ==> r == Err::<Peer, Error>(Error::Exhausted),
            r matches Ok(p) ==> p == self.spec_port_queue(self.spec_handle_port(handle))[0],
    {
        let hi = match self.find_handle(handle) {
            Some(i) => i,
            None => {
                return Err(Error::NotBound);
            },
        };
        let port = self.handles[hi].1;
        proof {
            let c = choose|c: int|
                0 <= c < self.handle_entries().len() && (#[trigger] self.handle_entries()[c]).0
                    == handle;
            assert(self.handle_entries()[c] == self.handle_entries()[hi as int]);
            assert(self.spec_handle_port(handle) == port);
        }
        let ci = match self.find_conn(port) {
            Some(i) => i,
            None => {
                return Err(Error::NotBound);
            },
        };
        proof {
            let c = choose|c: int|
                0 <= c < self.conn_entries().len() && (#[trigger] self.conn_entries()[c]).0
                    == port;
            assert(self.conn_entries()[c] == self.conn_entries()[ci as int]);
        }
        match self.connections[ci].1.peek_front() {
            Some(p) => Ok(p),
            None => Err(Error::Exhausted),
        }
    }

    /// Gives the first pending peer for the server socket `handle`,
    /// without dequeuing it; to take it off the queue, use `accept`.
    ///
    /// Fails with `Error::NotBound` when `handle` is not bound and with
    /// `Error::Exhausted` when no peer is pending.
    pub fn get_remote(&self, handle: Handle) -> (r: Result<Peer>)
        requires
            self.wf(),
        ensures
            r is Ok <==> self.spec_is_bound(handle) && self.spec_port_queue(
                self.spec_handle_port(handle),
            ).len() > 0,
            !self.spec_is_bound(handle) ==> r == Err::<Peer, Error>(Error::NotBound),
            self.spec_is_bound(handle) && self.spec_port_queue(
                self.spec_handle_port(handle),
            ).len() == 0 ==> r == Err::<Peer, Error>(Error::Exhausted),
            r matches Ok(p) ==> p == self.spec_port_queue(self.spec_handle_port(handle))[0],
    {
        self.peek_remote(handle)
    }

    /// Dequeue and return the next pending peer for the server socket
    /// `handle`, in arrival order.
    ///
    /// Fails with `Error::NotBound` when `handle` is not bound and with
    /// `Error::Exhausted` when no peer is pending.
    pub fn accept(&mut self, handle: Handle) -> (r: Result<Peer>)
        requires
            old(self).wf(),
        ensures
            final(self).wf(),
            r is Ok <==> old(self).spec_is_bound(handle) && old(self).spec_port_queue(
                old(self).spec_handle_port(handle),
            ).len() > 0,
            r is Err ==> final(self).handle_entries() == old(self).handle_entries() && final(self).conn_entries() == old(self).conn_entries() && final(self).out_entries() == old(self).out_entries(),
            !old(self).spec_is_bound(handle) ==> r == Err::<Peer, Error>(Error::NotBound),
            old(self).spec_is_bound(handle) && old(self).spec_port_queue(
                old(self).spec_handle_port(handle),
            ).len() == 0 ==> r == Err::<Peer, Error>(Error::Exhausted),
            r matches Ok(p) ==> {
                &&& p == old(self).spec_port_queue(old(self).spec_handle_port(handle))[0]
                &&& final(self).spec_port_queue(old(self).spec_handle_port(handle)) == old(self).spec_port_queue(old(self).spec_handle_port(handle)).drop_first()
                &&& final(self).handle_entries() == old(self).handle_entries()
                &&& final(self).out_entries() == old(self).out_entries()
                &&& forall|p2: u16|
                    p2 != old(self).spec_handle_port(handle) && old(self).spec_is_port_bound(p2)
                        ==> #[trigger] final(self).spec_port_queue(p2) == old(self).spec_port_queue(p2)
                &&& forall|p2: u16| #[trigger]
                    final(self).spec_is_port_bound(p2) == old(self).spec_is_port_bound(p2)
            },
    {
        let hi = match self.find_handle(handle) {
            Some(i) => i,
            None => {
                return Err(Error::NotBound);
            },
        };
        let port = self.handles[hi].1;
        proof {
            let c = choose|c: int|
                0 <= c < self.handle_entries().len() && (#[trigger] self.handle_entries()[c]).0
                    == handle;
            assert(self.handle_entries()[c] == self.handle_entries()[hi as int]);
            assert(self.spec_handle_port(handle) == port);
        }
        let ci = match self.find_conn(port) {
            Some(i) => i,
            None => {
                return Err(Error::NotBound);
            },
        };
        proof {
            let c = choose|c: int|
                0 <= c < self.conn_entries().len() && (#[trigger] self.conn_entries()[c]).0
                    == port;
            assert(self.conn_entries()[c] == self.conn_entries()[ci as int]);
        }
        let entry = &mut self.connections[ci];
        let taken = entry.1.dequeue();
        match taken {
            None => {
                proof {
                    assert(self.conn_entries() =~= old(self).conn_entries());
                }
                Err(Error::Exhausted)
            },
            Some(p) => {
                proof {
                    let cs = self.conn_entries();
                    assert(cs =~= old(self).conn_entries().update(
                        ci as int,
                        (port, cs[ci as int].1),
                    ));
                    assert forall|i: int, j: int|
                        #![trigger cs[i], cs[j]]
                        0 <= i < cs.len() && 0 <= j < cs.len() && i != j implies cs[i].0 != cs[j].0 by {
                        assert(cs[i].0 == old(self).conn_entries()[i].0);
                        assert(cs[j].0 == old(self).conn_entries()[j].0);
                    }
                    assert forall|i: int|
                        0 <= i < cs.len() implies (#[trigger] cs[i]).1.wf() by {
                        if i != ci {
                            assert(cs[i] == old(self).conn_entries()[i]);
                        }
                    }
                    assert forall|i: int|
                        0 <= i < self.handle_entries().len() implies self.spec_is_port_bound(
                        (#[trigger] self.handle_entries()[i]).1,
                    ) by {
                        assert(old(self).spec_is_port_bound(old(self).handle_entries()[i].1));
                        let w = choose|w: int|
                            0 <= w < old(self).conn_entries().len() && (#[trigger] old(self).conn_entries()[w]).0 == old(self).handle_entries()[i].1;
                        assert(cs[w].0 == old(self).handle_entries()[i].1);
                    }
                    assert(cs[ci as int].0 == port);
                    let c2 = choose|c: int|
                        0 <= c < cs.len() && (#[trigger] cs[c]).0 == port;
                    if c2 != ci as int {
                        assert(cs[c2].0 != cs[ci as int].0);
                    }
                    assert(c2 == ci as int);
                    assert forall|p2: u16|
                        p2 != port && old(self).spec_is_port_bound(p2) implies #[trigger] self.spec_port_queue(p2) == old(self).spec_port_queue(p2) by {
                        let w2 = choose|i: int|
                            0 <= i < old(self).conn_entries().len() && (#[trigger] old(self).conn_entries()[i]).0 == p2;
                        assert(old(self).conn_entries()[w2].0 == p2);
                        assert(cs[w2].0 == p2);
                        assert(self.spec_is_port_bound(p2));
                        let w1 = choose|i: int|
                            0 <= i < self.conn_entries().len() && (#[trigger] self.conn_entries()[i]).0 == p2;
                        assert(cs[w1].0 == p2);
                        if w1 != w2 {
                            assert(cs[w1].0 != cs[w2].0);
                        }
                        assert(w1 != ci as int);
                        assert(cs[w1] == old(self).conn_entries()[w1]);
                    }
                    assert forall|p2: u16| #[trigger]
                        self.spec_is_port_bound(p2) == old(self).spec_is_port_bound(p2) by {
                        if old(self).spec_is_port_bound(p2) {
                            let w = choose|w: int|
                                0 <= w < old(self).conn_entries().len() && (#[trigger] old(self).conn_entries()[w]).0 == p2;
                            assert(cs[w].0 == p2);
                        }
                        if self.spec_is_port_bound(p2) {
                            let w = choose|w: int|
                                0 <= w < cs.len() && (#[trigger] cs[w]).0 == p2;
                            assert(old(self).conn_entries()[w].0 == p2);
                        }
                    }
                }
                Ok(p)
            },
        }
    }

    /// Register a logical outgoing association from `handle` to `addr`,
    /// so a later [`UdpListener::get_outgoing`] resolves `addr` back to
    /// `handle`. Registering the same pair again is accepted and changes
    /// nothing.
    ///
    /// Fails with `Error::ListenerError` when `addr` is already associated
    /// with a different handle, or when the table is at capacity.
    pub fn outgoing_connection(&mut self, handle: Handle, addr: SocketAddr) -> (r: Result<()>)
        requires
            old(self).wf(),
        ensures
            final(self).wf(),
            r is Ok <==> old(self).spec_get_outgoing(addr) == Some(handle) || (!old(self).spec_out_contains(addr) && old(self).out_entries().len() < N),
            r matches Err(e) ==> e == Error::ListenerError && *final(self) == *old(self),
            r is Ok ==> {
                &&& final(self).spec_get_outgoing(addr) == Some(handle)
                &&& final(self).handle_entries() == old(self).handle_entries()
                &&& final(self).conn_entries() == old(self).conn_entries()
                &&& (old(self).spec_out_contains(addr) ==> *final(self) == *old(self))
                &&& (!old(self).spec_out_contains(addr) ==> final(self).out_entries() == old(self).out_entries().push((addr, handle)))
            },
    {
        let found = self.find_out(addr);
        match found {
            Some(i) => {
                proof {
                    let c = choose|c: int|
                        0 <= c < self.out_entries().len() && (#[trigger] self.out_entries()[c]).0 == addr;
                    assert(self.out_entries()[c] == self.out_entries()[i as int]);
                }
                if self.outgoing[i].1 == handle {
                    Ok(())
                } else {
                    Err(Error::ListenerError)
                }
            },
            None => {
                if self.outgoing.len() >= N {
                    return Err(Error::ListenerError);
                }
                self.outgoing.push((addr, handle));
                proof {
                    let os = self.out_entries();
                    assert(os[os.len() - 1].0 == addr);
                    assert(self.spec_out_contains(addr));
                    assert forall|i: int, j: int|
                        #![trigger os[i], os[j]]
                        0 <= i < os.len() && 0 <= j < os.len() && i != j implies os[i].0 != os[j].0 by {
                        if i < os.len() - 1 && j < os.len() - 1 {
                            assert(old(self).out_entries()[i] == os[i]);
                            assert(old(self).out_entries()[j] == os[j]);
                        } else if i == os.len() - 1 && 0 <= j < os.len() - 1 {
                            assert(old(self).out_entries()[j] == os[j]);
                            assert(!old(self).spec_out_contains(addr));
                        } else if j == os.len() - 1 && 0 <= i < os.len() - 1 {
                            assert(old(self).out_entries()[i] == os[i]);
                            assert(!old(self).spec_out_contains(addr));
                        }
                    }
                    let c = choose|c: int|
                        0 <= c < os.len() && (#[trigger] os[c]).0 == addr;
                    if c != os.len() - 1 {
                        assert(old(self).out_entries()[c] == os[c]);
                        assert(old(self).spec_out_contains(addr));
                    }
                    assert(self.spec_get_outgoing(addr) == Some(handle));
                }
                Ok(())
            },
        }
    }

    /// Resolve the handle of the outgoing association registered for
    /// `addr`, if any; the association persists, so repeated sends to the
    /// same peer keep resolving to the same logical connection.
    pub fn get_outgoing(&self, addr: SocketAddr) -> (r: Option<Handle>)
        requires
            self.wf(),
        ensures
            r == self.spec_get_outgoing(addr),
    {
        match self.find_out(addr) {
            Some(i) => {
                proof {
                    let c = choose|c: int|
                        0 <= c < self.out_entries().len() && (#[trigger] self.out_entries()[c]).0 == addr;
                    assert(self.out_entries()[c] == self.out_entries()[i as int]);
                }
                Some(self.outgoing[i].1)
            },
            None => None,
        }
    }
}

/// Replacing the queue of a bound port with another valid queue keeps the
/// listener valid: after mutating the buffer borrowed from
/// [`UdpListener::incoming`], the listener is well-formed again.
pub proof fn lemma_wf_after_queue_update<const N: usize, const L: usize>(
    pre: UdpListener<N, L>,
    post: UdpListener<N, L>,
    i: int,
    port: u16,
    q: RingBuffer<Peer, L>,
)
    requires
        pre.wf(),
        0 <= i < pre.conn_entries().len(),
        pre.conn_entries()[i].0 == port,
        q.wf(),
        post.conn_entries() == pre.conn_entries().update(i, (port, q)),
        post.handle_entries() == pre.handle_entries(),
        post.out_entries() == pre.out_entries(),
    ensures
        post.wf(),
        post.spec_is_port_bound(port),
        post.spec_port_queue(port) == q@,
{
    let cs = post.conn_entries();
    assert forall|a: int, b: int|
        #![trigger cs[a], cs[b]]
        0 <= a < cs.len() && 0 <= b < cs.len() && a != b implies cs[a].0 != cs[b].0 by {
        assert(cs[a].0 == pre.conn_entries()[a].0);
        assert(cs[b].0 == pre.conn_entries()[b].0);
    }
    assert forall|a: int| 0 <= a < cs.len() implies (#[trigger] cs[a]).1.wf() by {
        if a != i {
            assert(cs[a] == pre.conn_entries()[a]);
        }
    }
    assert forall|a: int|
        0 <= a < post.handle_entries().len() implies post.spec_is_port_bound(
        (#[trigger] post.handle_entries()[a]).1,
    ) by {
        assert(pre.spec_is_port_bound(pre.handle_entries()[a].1));
        let w = choose|w: int|
            0 <= w < pre.conn_entries().len() && (#[trigger] pre.conn_entries()[w]).0
                == pre.handle_entries()[a].1;
        assert(cs[w].0 == pre.handle_entries()[a].1);
    }
    assert(cs[i].0 == port);
    let c2 = choose|c: int| 0 <= c < cs.len() && (#[trigger] cs[c]).0 == port;
    if c2 != i {
        assert(cs[c2].0 != cs[i].0);
    }
    assert(post.spec_port_queue(port) == q@);
}

/// Pending peers are accepted strictly in arrival order: whatever was
/// already queued is accepted first, and two later arrivals come out in
/// the order they were pushed.
pub proof fn lemma_listener_fifo(q: Seq<Peer>, p1: Peer, p2: Peer)
    ensures
        q.push(p1).push(p2).skip(q.len() as int) =~= seq![p1, p2],
{
}

/// Registering an outgoing association for a fresh address makes the
/// address resolve to the registering handle.
pub proof fn lemma_outgoing_reuse<const N: usize, const L: usize>(
    pre: UdpListener<N, L>,
    post: UdpListener<N, L>,
    handle: Handle,
    addr: SocketAddr,
)
    requires
        pre.wf(),
        !pre.spec_out_contains(addr),
        post.out_entries() == pre.out_entries().push((addr, handle)),
    ensures
        post.spec_get_outgoing(addr) == Some(handle),
{
    let os = post.out_entries();
    assert(os[os.len() - 1].0 == addr);
    assert(post.spec_out_contains(addr));
    let c = choose|c: int| 0 <= c < os.len() && (#[trigger] os[c]).0 == addr;
    if c != os.len() - 1 {
        assert(pre.out_entries()[c] == os[c]);
        assert(pre.spec_out_contains(addr));
    }
}

} // verus!

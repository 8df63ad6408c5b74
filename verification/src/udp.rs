//! A UDP-style socket: the receive-buffer and availability tracking of its
//! TCP counterpart without the connection state machine.
//!
//! "Connected" for UDP means an endpoint has been associated for implicit
//! send/receive, not a handshake result. There is no post-close grace
//! timer at the socket level; UDP cleanup is the listener's business.

use vstd::prelude::*;

use crate::addr::SocketAddr;
use crate::ring_buffer::RingBuffer;
use crate::set::Handle;
use crate::tcp::recv_post;
use crate::tcp::recv_wrapping_post;
use crate::tcp::SocketBuffer;
use crate::Error;
use crate::Result;
use crate::SocketMeta;

verus! {

/// The two phases of a connectionless socket: an endpoint is associated,
/// or not.
#[derive(Debug, Clone, Copy, PartialEq, Eq, Structural)]
pub enum State {
    /// No endpoint associated, or torn down.
    Closed,
    /// An endpoint is associated for implicit send/receive.
    Established,
}

/// A User Datagram Protocol socket.
#[derive(Debug)]
pub struct UdpSocket<const L: usize> {
    /// Registry bookkeeping: the handle addressing this socket.
    pub meta: SocketMeta,
    /// Endpoint associated by `bind`, if any.
    pub endpoint: Option<SocketAddr>,
    /// Whether an endpoint is currently associated.
    pub state: State,
    /// Minimum number of ticks between two polls of the remote module.
    pub check_interval: u64,
    /// Bytes the remote module reports as pending, not yet drained here.
    pub available_data: usize,
    /// Buffered received bytes, not yet handed to the application.
    pub rx_buffer: SocketBuffer<L>,
    /// Tick of the last poll of the remote module, if any.
    pub last_check_time: Option<u64>,
}

impl<const L: usize> UdpSocket<L> {
    /// Validity of the receive buffer's bookkeeping.
    pub open spec fn wf(self) -> bool {
        self.rx_buffer.wf()
    }

    /// The handle under which the registry addresses this socket.
    pub open spec fn spec_handle(self) -> Handle {
        self.meta.handle
    }

    /// Whether an endpoint is associated.
    pub open spec fn spec_is_established(self) -> bool {
        self.state == State::Established
    }

    /// Whether the remote module is due to be polled for new data at tick
    /// `now`; the same rate limiter as the TCP-style socket's, gated on an
    /// endpoint being associated.
    pub open spec fn spec_should_poll(self, now: u64) -> bool {
        &&& self.state == State::Established
        &&& match self.last_check_time {
            None => true,
            Some(t) => now < t || now - t >= self.check_interval,
        }
    }

    /// Whether data can still be received: an endpoint is associated, or
    /// data already buffered remains retrievable in any state.
    pub open spec fn spec_may_recv(self) -> bool {
        self.state == State::Established || self.rx_buffer@.len() > 0
    }

    /// Whether a receive can make progress: receiving is legal and the
    /// buffer is not full.
    pub open spec fn spec_can_recv(self) -> bool {
        self.spec_may_recv() && self.rx_buffer@.len() < L
    }

    /// Create a socket with the given handle id and poll interval in
    /// clock ticks.
    pub fn new(socket_id: u8, check_interval: u64) -> (r: UdpSocket<L>)
        ensures
            r.wf(),
            r.spec_handle() == Handle(socket_id),
            r.state == State::Closed,
            r.endpoint is None,
            r.check_interval == check_interval,
            r.available_data == 0,
            r.rx_buffer@ == Seq::<u8>::empty(),
            r.last_check_time is None,
    {
        UdpSocket {
            meta: SocketMeta { handle: Handle(socket_id) },
            endpoint: None,
            state: State::Closed,
            rx_buffer: SocketBuffer::new(),
            available_data: 0,
            check_interval,
            last_check_time: None,
        }
    }

    /// Return the socket handle.
    pub fn handle(&self) -> (r: Handle)
        ensures
            r == self.spec_handle(),
    {
        self.meta.handle
    }

    /// Replace the socket handle, used when the owning slot is reassigned.
    pub fn update_handle(&mut self, handle: Handle)
        ensures
            final(self).spec_handle() == handle,
            final(self).endpoint == old(self).endpoint,
            final(self).state == old(self).state,
            final(self).check_interval == old(self).check_interval,
            final(self).available_data == old(self).available_data,
            final(self).rx_buffer == old(self).rx_buffer,
            final(self).last_check_time == old(self).last_check_time,
    {
        self.meta.update(handle)
    }

    /// Return the associated endpoint, if any.
    pub fn endpoint(&self) -> (r: Option<SocketAddr>)
        ensures
            r == self.endpoint,
    {
        self.endpoint
    }

    /// Return the connection state.
    pub fn state(&self) -> (r: &State)
        ensures
            *r == self.state,
    {
        &self.state
    }

    /// Associate an endpoint for implicit send/receive.
    ///
    /// Fails with `Error::Illegal` when an endpoint is already associated.
    pub fn bind(&mut self, endpoint: SocketAddr) -> (r: Result<()>)
        ensures
            r is Err <==> old(self).state == State::Established,
            r matches Err(e) ==> e == Error::Illegal && *final(self) == *old(self),
            r is Ok ==> final(self).state == State::Established && final(self).endpoint == Some(
                endpoint,
            ),
            final(self).check_interval == old(self).check_interval,
            final(self).available_data == old(self).available_data,
            final(self).rx_buffer == old(self).rx_buffer,
            final(self).last_check_time == old(self).last_check_time,
            final(self).meta == old(self).meta,
    {
        match self.state {
            State::Established => Err(Error::Illegal),
            State::Closed => {
                self.endpoint = Some(endpoint);
                self.state = State::Established;
                Ok(())
            },
        }
    }

    /// Force the socket back to its freshly created shape.
    pub fn reset(&mut self)
        requires
            old(self).wf(),
        ensures
            final(self).wf(),
            final(self).state == State::Closed,
            final(self).endpoint is None,
            final(self).rx_buffer@ == Seq::<u8>::empty(),
            final(self).available_data == 0,
            final(self).last_check_time is None,
            final(self).check_interval == old(self).check_interval,
            final(self).meta == old(self).meta,
    {
        self.state = State::Closed;
        self.endpoint = None;
        self.rx_buffer.clear();
        self.available_data = 0;
        self.last_check_time = None;
    }

    /// Decide whether the remote module should be polled for newly
    /// available data at tick `now`, and if so stamp `now` as the last
    /// poll time; `false` unconditionally when no endpoint is associated.
    pub fn should_update_available_data(&mut self, now: u64) -> (r: bool)
        ensures
            r == old(self).spec_should_poll(now),
            r ==> final(self).last_check_time == Some(now),
            !r ==> final(self).last_check_time == old(self).last_check_time,
            final(self).endpoint == old(self).endpoint,
            final(self).state == old(self).state,
            final(self).check_interval == old(self).check_interval,
            final(self).available_data == old(self).available_data,
            final(self).rx_buffer == old(self).rx_buffer,
            final(self).meta == old(self).meta,
    {
        match self.state {
            State::Closed => false,
            State::Established => {
                let should_update = match self.last_check_time {
                    None => true,
                    Some(t) => now < t || now - t >= self.check_interval,
                };
                if should_update {
                    self.last_check_time = Some(now);
                }
                should_update
            },
        }
    }

    /// A UDP-style socket is never auto-recycled: it has no post-close
    /// grace timer; cleanup is handled by the listener.
    pub fn recycle(&self) -> (r: bool)
        ensures
            !r,
    {
        false
    }

    /// Record that the remote tore the association down: no new bytes
    /// will arrive, though buffered bytes remain readable.
    pub fn closed_by_remote(&mut self)
        ensures
            final(self).state == State::Closed,
            final(self).available_data == 0,
            final(self).endpoint == old(self).endpoint,
            final(self).check_interval == old(self).check_interval,
            final(self).rx_buffer == old(self).rx_buffer,
            final(self).last_check_time == old(self).last_check_time,
            final(self).meta == old(self).meta,
    {
        self.state = State::Closed;
        self.available_data = 0;
    }

    /// Set available data.
    pub fn set_available_data(&mut self, available_data: usize)
        ensures
            final(self).available_data == available_data,
            final(self).endpoint == old(self).endpoint,
            final(self).state == old(self).state,
            final(self).check_interval == old(self).check_interval,
            final(self).rx_buffer == old(self).rx_buffer,
            final(self).last_check_time == old(self).last_check_time,
            final(self).meta == old(self).meta,
    {
        self.available_data = available_data;
    }

    /// Get the number of bytes the remote module has signaled as pending.
    pub fn get_available_data(&self) -> (r: usize)
        ensures
            r == self.available_data,
    {
        self.available_data
    }

    /// Return whether the receive half is open: an endpoint is associated
    /// or buffered data remains.
    pub fn may_recv(&self) -> (r: bool)
        requires
            self.wf(),
        ensures
            r == self.spec_may_recv(),
    {
        match self.state {
            State::Established => true,
            State::Closed => !self.rx_buffer.is_empty(),
        }
    }

    /// Whether the receive half is open and the receive buffer is not
    /// full.
    pub fn can_recv(&self) -> (r: bool)
        requires
            self.wf(),
        ensures
            r == self.spec_can_recv(),
    {
        if !self.may_recv() {
            return false;
        }
        !self.rx_buffer.is_full()
    }

    /// Call `f` with the largest contiguous run of received bytes and
    /// dequeue the number of bytes `f` reports having consumed, clamped to
    /// the run it was shown.
    ///
    /// Fails with `Error::Illegal` when the receive half is not open.
    pub fn recv<R, F: FnOnce(&[u8]) -> (usize, R)>(&mut self, f: F) -> (r: Result<R>)
        requires
            old(self).wf(),
            forall|s: &[u8]| call_requires(f, (s,)),
        ensures
            final(self).wf(),
            r is Err <==> !old(self).spec_may_recv(),
            r matches Err(e) ==> e == Error::Illegal && *final(self) == *old(self),
            r matches Ok(res) ==> recv_post(old(self).rx_buffer, final(self).rx_buffer, f, res),
            r is Ok ==> final(self).endpoint == old(self).endpoint,
            r is Ok ==> final(self).state == old(self).state,
            r is Ok ==> final(self).check_interval == old(self).check_interval,
            r is Ok ==> final(self).available_data == old(self).available_data,
            r is Ok ==> final(self).last_check_time == old(self).last_check_time,
            r is Ok ==> final(self).meta == old(self).meta,
    {
        if !self.may_recv() {
            return Err(Error::Illegal);
        }
        proof {
            self.rx_buffer.lemma_contig_len_facts();
        }
        let buf = self.rx_buffer.get_allocated(0, L);
        let shown: usize = buf.len();
        let (n, res) = f(buf);
        proof {
            assert(call_ensures(f, (buf,), (n, res)));
        }
        let consumed: usize = if n <= shown {
            n
        } else {
            shown
        };
        self.rx_buffer.dequeue_many(consumed);
        proof {
            assert(recv_post(old(self).rx_buffer, self.rx_buffer, f, res));
        }
        Ok(res)
    }

    /// Call `f` with the received bytes as one or two runs whose
    /// concatenation is the full buffered content, dequeue the number of
    /// bytes `f` reports having consumed, clamped to what is buffered, and
    /// return that count.
    ///
    /// Fails with `Error::Illegal` when the receive half is not open.
    pub fn recv_wrapping<F: FnOnce(&[u8], Option<&[u8]>) -> usize>(&mut self, f: F) -> (r:
        Result<usize>)
        requires
            old(self).wf(),
            forall|a: &[u8], b: Option<&[u8]>| call_requires(f, (a, b)),
        ensures
            final(self).wf(),
            r is Err <==> !old(self).spec_may_recv(),
            r matches Err(e) ==> e == Error::Illegal && *final(self) == *old(self),
            r matches Ok(n) ==> recv_wrapping_post(
                old(self).rx_buffer,
                final(self).rx_buffer,
                f,
                n,
            ),
            r is Ok ==> final(self).endpoint == old(self).endpoint,
            r is Ok ==> final(self).state == old(self).state,
            r is Ok ==> final(self).check_interval == old(self).check_interval,
            r is Ok ==> final(self).available_data == old(self).available_data,
            r is Ok ==> final(self).last_check_time == old(self).last_check_time,
            r is Ok ==> final(self).meta == old(self).meta,
    {
        if !self.may_recv() {
            return Err(Error::Illegal);
        }
        proof {
            self.rx_buffer.lemma_contig_len_facts();
        }
        let avail: usize = self.rx_buffer.len();
        let first = self.rx_buffer.get_allocated(0, L);
        let first_len: usize = first.len();
        let n: usize = if first_len < avail {
            let second = self.rx_buffer.get_allocated(first_len, L);
            proof {
                assert(second@ == self.rx_buffer@.subrange(
                    self.rx_buffer.contig_len(0),
                    self.rx_buffer@.len() as int,
                ));
            }
            f(first, Some(second))
        } else {
            f(first, None)
        };
        let consumed: usize = if n <= avail {
            n
        } else {
            avail
        };
        self.rx_buffer.dequeue_many(consumed);
        proof {
            assert(recv_wrapping_post(old(self).rx_buffer, self.rx_buffer, f, n));
        }
        Ok(n)
    }

    /// Dequeue a run of received bytes into a prefix of `data`, and return
    /// the number of bytes actually dequeued.
    ///
    /// Fails with `Error::Illegal` when the receive half is not open.
    pub fn recv_slice(&mut self, data: &mut [u8]) -> (r: Result<usize>)
        requires
            old(self).wf(),
        ensures
            final(self).wf(),
            r is Err <==> !old(self).spec_may_recv(),
            r matches Err(e) ==> e == Error::Illegal && *final(self) == *old(self) && final(data)@
                == old(data)@,
            r matches Ok(n) ==> {
                &&& n == if old(data)@.len() <= old(self).rx_buffer@.len() {
                    old(data)@.len() as int
                } else {
                    old(self).rx_buffer@.len() as int
                }
                &&& final(self).rx_buffer@ == old(self).rx_buffer@.skip(n as int)
                &&& final(data)@ == old(self).rx_buffer@.subrange(0, n as int) + old(
                    data,
                )@.skip(n as int)
                &&& final(self).endpoint == old(self).endpoint
                &&& final(self).state == old(self).state
                &&& final(self).check_interval == old(self).check_interval
                &&& final(self).available_data == old(self).available_data
                &&& final(self).last_check_time == old(self).last_check_time
                &&& final(self).meta == old(self).meta
            },
    {
        if !self.may_recv() {
            return Err(Error::Illegal);
        }
        let n = self.rx_buffer.dequeue_slice(data);
        Ok(n)
    }

    /// Peek at a run of received bytes without removing them from the
    /// receive buffer: at most `size` bytes from the head, clamped to the
    /// largest contiguous run there.
    ///
    /// Fails with `Error::Illegal` when the receive half is not open.
    pub fn peek(&self, size: usize) -> (r: Result<&[u8]>)
        requires
            self.wf(),
        ensures
            r is Err <==> !self.spec_may_recv(),
            r matches Err(e) ==> e == Error::Illegal,
            r matches Ok(s) ==> {
                &&& s@ == self.rx_buffer@.subrange(
                    0,
                    if size <= self.rx_buffer.contig_len(0) {
                        size as int
                    } else {
                        self.rx_buffer.contig_len(0)
                    },
                )
                &&& (size > 0 && self.rx_buffer@.len() > 0 ==> s@.len() > 0)
            },
    {
        if !self.may_recv() {
            return Err(Error::Illegal);
        }
        Ok(self.rx_buffer.get_allocated(0, size))
    }

    /// Peek at a run of received bytes without removing them from the
    /// buffer, copying them into a prefix of `data`, and return how many
    /// bytes were copied.
    ///
    /// Fails with `Error::Illegal` when the receive half is not open.
    pub fn peek_slice(&self, data: &mut [u8]) -> (r: Result<usize>)
        requires
            self.wf(),
        ensures
            r is Err <==> !self.spec_may_recv(),
            r matches Err(e) ==> e == Error::Illegal && final(data)@ == old(data)@,
            r matches Ok(n) ==> {
                &&& n == if old(data)@.len() <= self.rx_buffer.contig_len(0) {
                    old(data)@.len() as int
                } else {
                    self.rx_buffer.contig_len(0)
                }
                &&& final(data)@ == self.rx_buffer@.subrange(0, n as int) + old(data)@.skip(
                    n as int,
                )
            },
    {
        proof {
            self.rx_buffer.lemma_contig_len_facts();
        }
        let data_len: usize = data.len();
        let buffer = match self.peek(data_len) {
            Ok(b) => b,
            Err(e) => {
                return Err(e);
            },
        };
        let n: usize = buffer.len();
        let mut i: usize = 0;
        proof {
            assert(data@ =~= self.rx_buffer@.subrange(0, 0) + old(data)@.skip(0));
        }
        while i < n
            invariant
                i <= n,
                n <= data@.len(),
                n <= self.rx_buffer@.len(),
                data@.len() == old(data)@.len(),
                buffer@.len() == n,
                buffer@ == self.rx_buffer@.subrange(0, n as int),
                data@ == self.rx_buffer@.subrange(0, i as int) + old(data)@.skip(i as int),
            decreases n - i,
        {
            let v: u8 = *vstd::slice::slice_index_get(buffer, i);
            let ghost pre = data@;
            data[i] = v;
            proof {
                assert(v == self.rx_buffer@[i as int]);
                assert(data@ == pre.update(i as int, v));
                assert(data@ =~= self.rx_buffer@.subrange(0, i + 1) + old(data)@.skip(i + 1));
            }
            i = i + 1;
        }
        Ok(n)
    }

    /// Push newly arrived bytes from the ingesting driver into the receive
    /// buffer; the count actually written may fall short of `data.len()`
    /// when the buffer fills, which is the backpressure signal.
    pub fn rx_enqueue_slice(&mut self, data: &[u8]) -> (count: usize)
        requires
            old(self).wf(),
        ensures
            final(self).wf(),
            count == if data@.len() <= L - old(self).rx_buffer@.len() {
                data@.len() as int
            } else {
                L - old(self).rx_buffer@.len()
            },
            final(self).rx_buffer@ == old(self).rx_buffer@ + data@.subrange(0, count as int),
            final(self).endpoint == old(self).endpoint,
            final(self).state == old(self).state,
            final(self).check_interval == old(self).check_interval,
            final(self).available_data == old(self).available_data,
            final(self).last_check_time == old(self).last_check_time,
            final(self).meta == old(self).meta,
    {
        self.rx_buffer.enqueue_slice(data)
    }

    /// Bytes of free space in the receive buffer.
    pub fn rx_window(&self) -> (r: usize)
        requires
            self.wf(),
        ensures
            r == L - self.rx_buffer@.len(),
    {
        self.rx_buffer.window()
    }

    /// The amount of octets queued in the receive buffer.
    pub fn recv_queue(&self) -> (r: usize)
        requires
            self.wf(),
        ensures
            r == self.rx_buffer@.len(),
    {
        self.rx_buffer.len()
    }

    /// Set the connection state.
    pub fn set_state(&mut self, state: State)
        ensures
            final(self).state == state,
            final(self).endpoint == old(self).endpoint,
            final(self).check_interval == old(self).check_interval,
            final(self).available_data == old(self).available_data,
            final(self).rx_buffer == old(self).rx_buffer,
            final(self).last_check_time == old(self).last_check_time,
            final(self).meta == old(self).meta,
    {
        self.state = state;
    }
}

} // verus!

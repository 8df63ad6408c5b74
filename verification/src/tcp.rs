//! A TCP-style socket: one circular receive buffer, a coarse connection
//! lifecycle, poll throttling and timeout-driven recycling.
//!
//! Segment-level TCP (framing, acknowledgements, retransmission) is handled
//! by the remote module; this socket only tracks whether receiving is
//! currently legal, rate-limits how often the module is polled for new
//! data, and reports when an abandoned socket may be reclaimed.
//!
//! All time-dependent operations take `now`, the current reading of a
//! monotonic clock in ticks; no tick frequency is assumed.

use vstd::prelude::*;

use crate::addr::SocketAddr;
use crate::ring_buffer::RingBuffer;
use crate::set::Handle;
use crate::Error;
use crate::Result;
use crate::SocketMeta;

verus! {

/// A TCP socket ring buffer.
pub type SocketBuffer<const N: usize> = RingBuffer<u8, N>;

/// What a successful `recv` leaves behind: `f` was shown the contiguous
/// run at the buffer's head, and the bytes `f` reported consuming, clamped
/// to that run, were dequeued; `res` is a possible result of `f` on it.
pub open spec fn recv_post<R, F: FnOnce(&[u8]) -> (usize, R), const N: usize>(
    pre: SocketBuffer<N>,
    post: SocketBuffer<N>,
    f: F,
    res: R,
) -> bool {
    exists|s: &[u8], n: usize|
        {
            &&& s@ == pre@.subrange(0, pre.contig_len(0))
            &&& #[trigger] call_ensures(f, (s,), (n, res))
            &&& post@ == pre@.skip(
                if n <= s@.len() {
                    n as int
                } else {
                    s@.len() as int
                },
            )
        }
}

/// What a successful `recv_wrapping` leaves behind: `f` was shown the
/// whole buffered content as the head run and, when that content wrapped,
/// `Some` remainder run; it reported consuming `n` bytes, and that many,
/// clamped to what was buffered, were dequeued.
pub open spec fn recv_wrapping_post<F: FnOnce(&[u8], Option<&[u8]>) -> usize, const N: usize>(
    pre: SocketBuffer<N>,
    post: SocketBuffer<N>,
    f: F,
    n: usize,
) -> bool {
    exists|a: &[u8], b: Option<&[u8]>|
        {
            &&& a@ == pre@.subrange(0, pre.contig_len(0))
            &&& match b {
                Some(bs) => pre.contig_len(0) < pre@.len() && bs@ == pre@.subrange(
                    pre.contig_len(0),
                    pre@.len() as int,
                ),
                None => pre.contig_len(0) == pre@.len(),
            }
            &&& #[trigger] call_ensures(f, (a, b), n)
            &&& post@ == pre@.skip(
                if n <= pre@.len() {
                    n as int
                } else {
                    pre@.len() as int
                },
            )
        }
}

/// The coarse connection lifecycle of a TCP-style socket.
#[derive(Debug, Clone, Copy, PartialEq, Eq, Structural)]
pub enum State {
    /// Freshly created, unsullied.
    Created,
    /// Connect initiated towards the endpoint, not yet confirmed.
    WaitingForConnect(SocketAddr),
    /// Actively exchanging packets with the endpoint.
    Connected(SocketAddr),
    /// Closed by the remote at the recorded tick; reads may drain what is
    /// buffered, no new data will arrive.
    ShutdownForWrite(u64),
}

/// A Transmission Control Protocol socket.
///
/// A TCP socket may passively listen for connections or actively connect
/// to another endpoint. Note that, for listening sockets, there is no
/// "backlog"; to be able to simultaneously accept several connections, as
/// many sockets must be allocated, or any new connection attempts will be
/// reset.
#[derive(Debug)]
pub struct TcpSocket<const L: usize> {
    /// Registry bookkeeping: the handle addressing this socket.
    pub meta: SocketMeta,
    /// Connection lifecycle state.
    pub state: State,
    /// Minimum number of ticks between two polls of the remote module.
    pub check_interval: u64,
    /// Grace period in ticks after a remote close before the socket may be
    /// recycled; `None` disables recycling.
    pub read_timeout: Option<u64>,
    /// Bytes the remote module reports as pending, not yet drained here.
    pub available_data: usize,
    /// Buffered received bytes, not yet handed to the application.
    pub rx_buffer: SocketBuffer<L>,
    /// Tick of the last poll of the remote module, if any.
    pub last_check_time: Option<u64>,
}

impl<const L: usize> TcpSocket<L> {
    /// Validity of the receive buffer's bookkeeping.
    pub open spec fn wf(self) -> bool {
        self.rx_buffer.wf()
    }

    /// The handle under which the registry addresses this socket.
    pub open spec fn spec_handle(self) -> Handle {
        self.meta.handle
    }

    /// The endpoint recorded by a connect, if any.
    pub open spec fn spec_endpoint(self) -> Option<SocketAddr> {
        match self.state {
            State::Connected(s) => Some(s),
            State::WaitingForConnect(s) => Some(s),
            _ => None,
        }
    }

    /// Whether the connection is active.
    pub open spec fn spec_is_connected(self) -> bool {
        self.state matches State::Connected(_)
    }

    /// Whether the remote module is due to be polled for new data at tick
    /// `now`: the socket is connected and either it was never polled, or
    /// at least `check_interval` ticks have passed since the last poll (a
    /// clock that jumped backwards also triggers a poll).
    pub open spec fn spec_should_poll(self, now: u64) -> bool {
        &&& self.state matches State::Connected(_)
        &&& match self.last_check_time {
            None => true,
            Some(t) => now < t || now - t >= self.check_interval,
        }
    }

    /// Whether the socket may be reclaimed at tick `now`: it was shut down
    /// by the remote at least `read_timeout` ticks ago.
    pub open spec fn spec_recyclable(self, now: u64) -> bool {
        match (self.read_timeout, self.state) {
            (Some(rt), State::ShutdownForWrite(t0)) => now >= t0 && now - t0 >= rt,
            _ => false,
        }
    }

    /// Whether data can still be received: the receive half is open, or
    /// data already buffered remains retrievable in any state.
    pub open spec fn spec_may_recv(self) -> bool {
        match self.state {
            State::Connected(_) => true,
            State::ShutdownForWrite(_) => true,
            _ => self.rx_buffer@.len() > 0,
        }
    }

    /// Whether a receive can make progress: receiving is legal and the
    /// buffer is not full.
    pub open spec fn spec_can_recv(self) -> bool {
        self.spec_may_recv() && self.rx_buffer@.len() < L
    }

    /// Create a socket with the given handle id, poll interval and
    /// post-close grace period, both in clock ticks.
    pub fn new(socket_id: u8, check_interval: u64, read_timeout: Option<u64>) -> (r: TcpSocket<
        L,
    >)
        ensures
            r.wf(),
            r.spec_handle() == Handle(socket_id),
            r.state == State::Created,
            r.check_interval == check_interval,
            r.read_timeout == read_timeout,
            r.available_data == 0,
            r.rx_buffer@ == Seq::<u8>::empty(),
            r.last_check_time is None,
    {
        TcpSocket {
            meta: SocketMeta { handle: Handle(socket_id) },
            state: State::Created,
            rx_buffer: SocketBuffer::new(),
            available_data: 0,
            check_interval,
            read_timeout,
            last_check_time: None,
        }
    }

    /// Return the socket handle.
    pub fn handle(&self) -> (r: Handle)
        ensures
            r == self.spec_handle(),
    {
        self.meta.handle
    }

    /// Replace the socket handle, used when the owning slot is reassigned.
    pub fn update_handle(&mut self, handle: Handle)
        ensures
            final(self).spec_handle() == handle,
            final(self).state == old(self).state,
            final(self).check_interval == old(self).check_interval,
            final(self).read_timeout == old(self).read_timeout,
            final(self).available_data == old(self).available_data,
            final(self).rx_buffer == old(self).rx_buffer,
            final(self).last_check_time == old(self).last_check_time,
    {
        self.meta.update(handle)
    }

    /// Return the bound endpoint.
    pub fn endpoint(&self) -> (r: Option<SocketAddr>)
        ensures
            r == self.spec_endpoint(),
    {
        match self.state {
            State::Connected(s) => Some(s),
            State::WaitingForConnect(s) => Some(s),
            _ => None,
        }
    }

    /// Return the connection state, in terms of the TCP state machine.
    pub fn state(&self) -> (r: &State)
        ensures
            *r == self.state,
    {
        &self.state
    }

    /// Force the socket back to its freshly created shape: state
    /// `Created`, an empty buffer, no pending data, no poll history.
    pub fn reset(&mut self)
        requires
            old(self).wf(),
        ensures
            final(self).wf(),
            final(self).state == State::Created,
            final(self).rx_buffer@ == Seq::<u8>::empty(),
            final(self).available_data == 0,
            final(self).last_check_time is None,
            final(self).check_interval == old(self).check_interval,
            final(self).read_timeout == old(self).read_timeout,
            final(self).meta == old(self).meta,
    {
        self.set_state(State::Created);
        self.rx_buffer.clear();
        self.set_available_data(0);
        self.last_check_time = None;
    }

    /// Decide whether the remote module should be polled for newly
    /// available data at tick `now`, and if so stamp `now` as the last
    /// poll time. Returns `false` unconditionally when the socket is not
    /// connected. This throttles an external poll performed by the caller;
    /// it does not read the buffer.
    pub fn should_update_available_data(&mut self, now: u64) -> (r: bool)
        ensures
            r == old(self).spec_should_poll(now),
            r ==> final(self).last_check_time == Some(now),
            !r ==> final(self).last_check_time == old(self).last_check_time,
            final(self).state == old(self).state,
            final(self).check_interval == old(self).check_interval,
            final(self).read_timeout == old(self).read_timeout,
            final(self).available_data == old(self).available_data,
            final(self).rx_buffer == old(self).rx_buffer,
            final(self).meta == old(self).meta,
    {
        if !self.is_connected() {
            return false;
        }
        let should_update = match self.last_check_time {
            None => true,
            Some(t) => now < t || now - t >= self.check_interval,
        };
        if should_update {
            self.last_check_time = Some(now);
        }
        should_update
    }

    /// Whether the socket is eligible for destruction at tick `now`: only
    /// a socket shut down by the remote at least `read_timeout` ticks ago
    /// is ever auto-recycled.
    pub fn recycle(&self, now: u64) -> (r: bool)
        ensures
            r == self.spec_recyclable(now),
    {
        if let Some(read_timeout) = self.read_timeout {
            match self.state {
                State::ShutdownForWrite(closed_time) => now >= closed_time && now - closed_time
                    >= read_timeout,
                _ => false,
            }
        } else {
            false
        }
    }

    /// Record that the remote closed the connection at tick `now`: no new
    /// bytes will arrive, though buffered bytes remain readable.
    pub fn closed_by_remote(&mut self, now: u64)
        ensures
            final(self).state == State::ShutdownForWrite(now),
            final(self).available_data == 0,
            final(self).check_interval == old(self).check_interval,
            final(self).read_timeout == old(self).read_timeout,
            final(self).rx_buffer == old(self).rx_buffer,
            final(self).last_check_time == old(self).last_check_time,
            final(self).meta == old(self).meta,
    {
        self.set_state(State::ShutdownForWrite(now));
        self.set_available_data(0);
    }

    /// Set available data.
    pub fn set_available_data(&mut self, available_data: usize)
        ensures
            final(self).available_data == available_data,
            final(self).state == old(self).state,
            final(self).check_interval == old(self).check_interval,
            final(self).read_timeout == old(self).read_timeout,
            final(self).rx_buffer == old(self).rx_buffer,
            final(self).last_check_time == old(self).last_check_time,
            final(self).meta == old(self).meta,
    {
        self.available_data = available_data;
    }

    /// Get the number of bytes the remote module has signaled as pending.
    pub fn get_available_data(&self) -> (r: usize)
        ensures
            r == self.available_data,
    {
        self.available_data
    }

    /// Return whether a connection is active.
    pub fn is_connected(&self) -> (r: bool)
        ensures
            r == self.spec_is_connected(),
    {
        match self.state {
            State::Connected(_) => true,
            _ => false,
        }
    }

    /// Return whether the receive half of the full-duplex connection is
    /// open: the remote has not closed, or buffered data remains.
    pub fn may_recv(&self) -> (r: bool)
        requires
            self.wf(),
        ensures
            r == self.spec_may_recv(),
    {
        match self.state {
            State::Connected(_) => true,
            State::ShutdownForWrite(_) => true,
            _ => !self.rx_buffer.is_empty(),
        }
    }

    /// Whether the receive half is open and the receive buffer is not
    /// full.
    pub fn can_recv(&self) -> (r: bool)
        requires
            self.wf(),
        ensures
            r == self.spec_can_recv(),
    {
        if !self.may_recv() {
            return false;
        }
        !self.rx_buffer.is_full()
    }

    /// Call `f` with the largest contiguous run of received bytes and
    /// dequeue the number of bytes `f` reports having consumed, clamped to
    /// the run it was shown.
    ///
    /// Fails with `Error::Illegal` when the receive half is not open.
    pub fn recv<R, F: FnOnce(&[u8]) -> (usize, R)>(&mut self, f: F) -> (r: Result<R>)
        requires
            old(self).wf(),
            forall|s: &[u8]| call_requires(f, (s,)),
        ensures
            final(self).wf(),
            r is Err <==> !old(self).spec_may_recv(),
            r matches Err(e) ==> e == Error::Illegal && *final(self) == *old(self),
            r matches Ok(res) ==> recv_post(old(self).rx_buffer, final(self).rx_buffer, f, res),
            r is Ok ==> final(self).state == old(self).state,
            r is Ok ==> final(self).check_interval == old(self).check_interval,
            r is Ok ==> final(self).read_timeout == old(self).read_timeout,
            r is Ok ==> final(self).available_data == old(self).available_data,
            r is Ok ==> final(self).last_check_time == old(self).last_check_time,
            r is Ok ==> final(self).meta == old(self).meta,
    {
        if !self.may_recv() {
            return Err(Error::Illegal);
        }
        proof {
            self.rx_buffer.lemma_contig_len_facts();
        }
        let buf = self.rx_buffer.get_allocated(0, L);
        let shown: usize = buf.len();
        let (n, res) = f(buf);
        proof {
            assert(buf@ == old(self).rx_buffer@.subrange(
                0,
                old(self).rx_buffer.contig_len(0),
            ));
            assert(call_ensures(f, (buf,), (n, res)));
        }
        let consumed: usize = if n <= shown {
            n
        } else {
            shown
        };
        self.rx_buffer.dequeue_many(consumed);
        proof {
            assert(recv_post(old(self).rx_buffer, self.rx_buffer, f, res));
        }
        Ok(res)
    }

    /// Call `f` with the received bytes as one or two runs: the run at the
    /// head and, when the readable region wraps past the buffer's end,
    /// `Some` second run covering the remainder, such that the two runs
    /// concatenated are the full buffered content. Dequeue the number of
    /// bytes `f` reports having consumed, clamped to what is buffered, and
    /// return that count.
    ///
    /// Fails with `Error::Illegal` when the receive half is not open.
    pub fn recv_wrapping<F: FnOnce(&[u8], Option<&[u8]>) -> usize>(&mut self, f: F) -> (r:
        Result<usize>)
        requires
            old(self).wf(),
            forall|a: &[u8], b: Option<&[u8]>| call_requires(f, (a, b)),
        ensures
            final(self).wf(),
            r is Err <==> !old(self).spec_may_recv(),
            r matches Err(e) ==> e == Error::Illegal && *final(self) == *old(self),
            r matches Ok(n) ==> recv_wrapping_post(
                old(self).rx_buffer,
                final(self).rx_buffer,
                f,
                n,
            ),
            r is Ok ==> final(self).state == old(self).state,
            r is Ok ==> final(self).check_interval == old(self).check_interval,
            r is Ok ==> final(self).read_timeout == old(self).read_timeout,
            r is Ok ==> final(self).available_data == old(self).available_data,
            r is Ok ==> final(self).last_check_time == old(self).last_check_time,
            r is Ok ==> final(self).meta == old(self).meta,
    {
        if !self.may_recv() {
            return Err(Error::Illegal);
        }
        proof {
            self.rx_buffer.lemma_contig_len_facts();
        }
        let avail: usize = self.rx_buffer.len();
        let first = self.rx_buffer.get_allocated(0, L);
        let first_len: usize = first.len();
        let n: usize = if first_len < avail {
            let second = self.rx_buffer.get_allocated(first_len, L);
            proof {
                assert(second@ == self.rx_buffer@.subrange(
                    self.rx_buffer.contig_len(0),
                    self.rx_buffer@.len() as int,
                ));
            }
            f(first, Some(second))
        } else {
            f(first, None)
        };
        let consumed: usize = if n <= avail {
            n
        } else {
            avail
        };
        self.rx_buffer.dequeue_many(consumed);
        proof {
            assert(recv_wrapping_post(old(self).rx_buffer, self.rx_buffer, f, n));
        }
        Ok(n)
    }

    /// Dequeue a run of received bytes into a prefix of `data`, and return
    /// the number of bytes actually dequeued, clamped both by `data`'s
    /// length and by what is buffered.
    ///
    /// Fails with `Error::Illegal` when the receive half is not open.
    pub fn recv_slice(&mut self, data: &mut [u8]) -> (r: Result<usize>)
        requires
            old(self).wf(),
        ensures
            final(self).wf(),
            r is Err <==> !old(self).spec_may_recv(),
            r matches Err(e) ==> e == Error::Illegal && *final(self) == *old(self) && final(data)@
                == old(data)@,
            r matches Ok(n) ==> {
                &&& n == if old(data)@.len() <= old(self).rx_buffer@.len() {
                    old(data)@.len() as int
                } else {
                    old(self).rx_buffer@.len() as int
                }
                &&& final(self).rx_buffer@ == old(self).rx_buffer@.skip(n as int)
                &&& final(data)@ == old(self).rx_buffer@.subrange(0, n as int) + old(
                    data,
                )@.skip(n as int)
                &&& final(self).state == old(self).state
                &&& final(self).check_interval == old(self).check_interval
                &&& final(self).read_timeout == old(self).read_timeout
                &&& final(self).available_data == old(self).available_data
                &&& final(self).last_check_time == old(self).last_check_time
                &&& final(self).meta == old(self).meta
            },
    {
        if !self.may_recv() {
            return Err(Error::Illegal);
        }
        let n = self.rx_buffer.dequeue_slice(data);
        Ok(n)
    }

    /// Peek at a run of received bytes without removing them from the
    /// receive buffer: at most `size` bytes from the head, clamped to the
    /// largest contiguous run there.
    ///
    /// Fails with `Error::Illegal` when the receive half is not open.
    pub fn peek(&self, size: usize) -> (r: Result<&[u8]>)
        requires
            self.wf(),
        ensures
            r is Err <==> !self.spec_may_recv(),
            r matches Err(e) ==> e == Error::Illegal,
            r matches Ok(s) ==> {
                &&& s@ == self.rx_buffer@.subrange(
                    0,
                    if size <= self.rx_buffer.contig_len(0) {
                        size as int
                    } else {
                        self.rx_buffer.contig_len(0)
                    },
                )
                &&& (size > 0 && self.rx_buffer@.len() > 0 ==> s@.len() > 0)
            },
    {
        if !self.may_recv() {
            return Err(Error::Illegal);
        }
        Ok(self.rx_buffer.get_allocated(0, size))
    }

    /// Peek at a run of received bytes without removing them from the
    /// buffer, copying them into a prefix of `data`, and return how many
    /// bytes were copied.
    ///
    /// Fails with `Error::Illegal` when the receive half is not open.
    pub fn peek_slice(&self, data: &mut [u8]) -> (r: Result<usize>)
        requires
            self.wf(),
        ensures
            r is Err <==> !self.spec_may_recv(),
            r matches Err(e) ==> e == Error::Illegal && final(data)@ == old(data)@,
            r matches Ok(n) ==> {
                &&& n == if old(data)@.len() <= self.rx_buffer.contig_len(0) {
                    old(data)@.len() as int
                } else {
                    self.rx_buffer.contig_len(0)
                }
                &&& final(data)@ == self.rx_buffer@.subrange(0, n as int) + old(data)@.skip(
                    n as int,
                )
            },
    {
        proof {
            self.rx_buffer.lemma_contig_len_facts();
        }
        let data_len: usize = data.len();
        let buffer = match self.peek(data_len) {
            Ok(b) => b,
            Err(e) => {
                return Err(e);
            },
        };
        let n: usize = buffer.len();
        let mut i: usize = 0;
        proof {
            assert(data@ =~= self.rx_buffer@.subrange(0, 0) + old(data)@.skip(0));
        }
        while i < n
            invariant
                i <= n,
                n <= data@.len(),
                n <= self.rx_buffer@.len(),
                data@.len() == old(data)@.len(),
                buffer@.len() == n,
                buffer@ == self.rx_buffer@.subrange(0, n as int),
                data@ == self.rx_buffer@.subrange(0, i as int) + old(data)@.skip(i as int),
            decreases n - i,
        {
            let v: u8 = *vstd::slice::slice_index_get(buffer, i);
            let ghost pre = data@;
            data[i] = v;
            proof {
                assert(v == self.rx_buffer@[i as int]);
                assert(data@ == pre.update(i as int, v));
                assert(data@ =~= self.rx_buffer@.subrange(0, i + 1) + old(data)@.skip(i + 1));
            }
            i = i + 1;
        }
        Ok(n)
    }

    /// Push newly arrived bytes from the ingesting driver into the receive
    /// buffer; the count actually written may fall short of `data.len()`
    /// when the buffer fills, which is the backpressure signal.
    pub fn rx_enqueue_slice(&mut self, data: &[u8]) -> (count: usize)
        requires
            old(self).wf(),
        ensures
            final(self).wf(),
            count == if data@.len() <= L - old(self).rx_buffer@.len() {
                data@.len() as int
            } else {
                L - old(self).rx_buffer@.len()
            },
            final(self).rx_buffer@ == old(self).rx_buffer@ + data@.subrange(0, count as int),
            final(self).state == old(self).state,
            final(self).check_interval == old(self).check_interval,
            final(self).read_timeout == old(self).read_timeout,
            final(self).available_data == old(self).available_data,
            final(self).last_check_time == old(self).last_check_time,
            final(self).meta == old(self).meta,
    {
        self.rx_buffer.enqueue_slice(data)
    }

    /// Bytes of free space in the receive buffer.
    pub fn rx_window(&self) -> (r: usize)
        requires
            self.wf(),
        ensures
            r == L - self.rx_buffer@.len(),
    {
        self.rx_buffer.window()
    }

    /// The amount of octets queued in the receive buffer.
    pub fn recv_queue(&self) -> (r: usize)
        requires
            self.wf(),
        ensures
            r == self.rx_buffer@.len(),
    {
        self.rx_buffer.len()
    }

    /// Set the connection state.
    pub fn set_state(&mut self, state: State)
        ensures
            final(self).state == state,
            final(self).check_interval == old(self).check_interval,
            final(self).read_timeout == old(self).read_timeout,
            final(self).available_data == old(self).available_data,
            final(self).rx_buffer == old(self).rx_buffer,
            final(self).last_check_time == old(self).last_check_time,
            final(self).meta == old(self).meta,
    {
        self.state = state;
    }
}

/// Receiving is legal exactly when the receive half is open or buffered
/// data remains: in `Created` or `WaitingForConnect` with an empty buffer
/// every `recv` fails, while `Connected`, `ShutdownForWrite`, or a
/// non-empty buffer in any state, permit it.
pub proof fn lemma_recv_legality<const L: usize>(s: TcpSocket<L>)
    ensures
        (s.state == State::Created || s.state matches State::WaitingForConnect(_))
            && s.rx_buffer@.len() == 0 ==> !s.spec_may_recv(),
        s.state matches State::Connected(_) ==> s.spec_may_recv(),
        s.state matches State::ShutdownForWrite(_) ==> s.spec_may_recv(),
        s.rx_buffer@.len() > 0 ==> s.spec_may_recv(),
{
}

/// A socket shut down by the remote at tick `t0` with grace period `rt` is
/// not recyclable one tick before `t0 + rt` and is recyclable at `t0 + rt`.
pub proof fn lemma_recycle_timing<const L: usize>(s: TcpSocket<L>, t0: u64, rt: u64)
    requires
        s.state == State::ShutdownForWrite(t0),
        s.read_timeout == Some(rt),
        rt >= 1,
        t0 + rt <= u64::MAX,
    ensures
        !s.spec_recyclable((t0 + rt - 1) as u64),
        s.spec_recyclable((t0 + rt) as u64),
{
}

/// After a poll is granted at tick `now1`, a second poll less than
/// `check_interval` ticks later is refused, and one at least
/// `check_interval` ticks later is granted again.
///
/// `s1` is the socket as `should_update_available_data` leaves it when it
/// returns `true` at `now1`: the same socket with `now1` stamped as the
/// last poll time.
pub proof fn lemma_poll_throttling<const L: usize>(
    s: TcpSocket<L>,
    s1: TcpSocket<L>,
    now1: u64,
    now2: u64,
)
    requires
        s.spec_should_poll(now1),
        s1.state == s.state,
        s1.check_interval == s.check_interval,
        s1.last_check_time == Some(now1),
        now1 <= now2,
    ensures
        now2 - now1 < s.check_interval ==> !s1.spec_should_poll(now2),
        now2 - now1 >= s.check_interval ==> s1.spec_should_poll(now2),
{
}

} // verus!

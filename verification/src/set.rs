//! The socket registry: a fixed-capacity table of optional sockets keyed
//! by small-integer handles.

use vstd::prelude::*;

use crate::Error;
use crate::Result;
use crate::Socket;

verus! {

/// An opaque handle identifying a socket slot within one registry.
///
/// A handle is unique among the live sockets of one registry at any moment,
/// but a slot's handle may be reassigned after the slot is recycled, so a
/// cached handle must be re-validated against the registry before each use.
#[derive(Debug, Clone, Copy, PartialEq, Eq, Hash, Structural)]
pub struct Handle(pub u8);

/// A fixed-capacity set of sockets, keyed by handle.
///
/// The registry owns every socket: sockets are created on [`SocketSet::add`] and
/// destroyed on [`SocketSet::remove`] or by the [`SocketSet::recycle`] sweep. Lookups
/// hand out borrows scoped to the call site; a handle must be re-resolved
/// on each use, since its slot may be reclaimed and reassigned in between.
#[derive(Debug)]
pub struct SocketSet<const N: usize, const L: usize> {
    /// The socket slots; a slot is `None` while unoccupied.
    sockets: Vec<Option<Socket<L>>>,
}

impl<const N: usize, const L: usize> SocketSet<N, L> {
    /// The slots of the registry, in slot order.
    pub closed spec fn slots(self) -> Seq<Option<Socket<L>>> {
        self.sockets@
    }

    /// Validity: exactly `N` slots, each occupied slot holding a socket
    /// with valid buffer bookkeeping.
    pub open spec fn wf(self) -> bool {
        &&& self.slots().len() == N
        &&& forall|i: int|
            0 <= i < N ==> match #[trigger] self.slots()[i] {
                Some(s) => s.wf(),
                None => true,
            }
    }

    /// Whether slot `i` holds a live socket with handle `h`.
    pub open spec fn slot_has(self, i: int, h: Handle) -> bool {
        match self.slots()[i] {
            Some(s) => s.spec_handle() == h,
            None => false,
        }
    }

    /// Whether some live socket carries handle `h`.
    pub open spec fn contains_handle(self, h: Handle) -> bool {
        exists|i: int| 0 <= i < N && #[trigger] self.slot_has(i, h)
    }

    /// Whether some slot is unoccupied.
    pub open spec fn has_free_slot(self) -> bool {
        exists|i: int| 0 <= i < N && self.slots()[i] is None
    }

    /// At most one live socket per handle.
    pub open spec fn handles_unique(self) -> bool {
        forall|i: int, j: int, h: Handle|
            #![trigger self.slot_has(i, h), self.slot_has(j, h)]
            0 <= i < N && 0 <= j < N && i != j ==> !(self.slot_has(i, h) && self.slot_has(j, h))
    }

    /// An empty registry of `N` unoccupied slots.
    pub fn new() -> (r: Self)
        ensures
            r.wf(),
            r.handles_unique(),
            forall|i: int| 0 <= i < N ==> r.slots()[i] is None,
    {
        let mut sockets: Vec<Option<Socket<L>>> = Vec::new();
        let mut i: usize = 0;
        while i < N
            invariant
                i <= N,
                sockets@.len() == i,
                forall|j: int| 0 <= j < i ==> sockets@[j] is None,
            decreases N - i,
        {
            sockets.push(None);
            i = i + 1;
        }
        SocketSet { sockets }
    }

    /// Capacity fixed at construction.
    pub fn capacity(&self) -> (r: usize)
        ensures
            r == N,
    {
        N
    }

    /// Add a socket to the set, returning its handle.
    ///
    /// Fails with `Error::DuplicateSocket` when a live socket already
    /// carries the same handle, and with `Error::SocketSetFull` when no
    /// handle clashes but every slot is occupied.
    pub fn add(&mut self, socket: Socket<L>) -> (r: Result<Handle>)
        requires
            old(self).wf(),
            socket.wf(),
        ensures
            final(self).wf(),
            r is Ok <==> !old(self).contains_handle(socket.spec_handle()) && old(
                self,
            ).has_free_slot(),
            r matches Ok(h) ==> h == socket.spec_handle() && exists|i: int|
                0 <= i < N && old(self).slots()[i] is None && final(self).slots() == old(
                    self,
                ).slots().update(i, Some(socket)),
            old(self).contains_handle(socket.spec_handle()) ==> r == Err::<Handle, Error>(
                Error::DuplicateSocket,
            ),
            !old(self).contains_handle(socket.spec_handle()) && !old(self).has_free_slot() ==> r
                == Err::<Handle, Error>(Error::SocketSetFull),
            r is Err ==> *final(self) == *old(self),
            old(self).handles_unique() ==> final(self).handles_unique(),
    {
        let h = socket.handle();
        let mut i: usize = 0;
        while i < N
            invariant
                i <= N,
                self.wf(),
                *self == *old(self),
                socket.wf(),
                h == socket.spec_handle(),
                forall|j: int| 0 <= j < i ==> !self.slot_has(j, h),
            decreases N - i,
        {
            match &self.sockets[i] {
                Some(s) => {
                    if s.handle() == h {
                        proof {
                            assert(self.slot_has(i as int, h));
                        }
                        return Err(Error::DuplicateSocket);
                    }
                },
                None => {},
            }
            i = i + 1;
        }
        let mut k: usize = 0;
        while k < N
            invariant
                k <= N,
                self.wf(),
                *self == *old(self),
                socket.wf(),
                h == socket.spec_handle(),
                forall|j: int| 0 <= j < N ==> !self.slot_has(j, h),
                forall|j: int| 0 <= j < k ==> self.slots()[j] is Some,
            decreases N - k,
        {
            if self.sockets[k].is_none() {
                self.sockets[k] = Some(socket);
                proof {
                    assert(self.slots() =~= old(self).slots().update(k as int, Some(socket)));
                    assert forall|j: int|
                        0 <= j < N implies match #[trigger] self.slots()[j] {
                        Some(s) => s.wf(),
                        None => true,
                    } by {
                        if j != k {
                            assert(self.slots()[j] == old(self).slots()[j]);
                        } else {
                            assert(self.slots()[j] == Some(socket));
                            assert(socket.wf());
                        }
                    }
                    assert forall|a: int, b: int, hh: Handle|
                        0 <= a < N && 0 <= b < N && a != b && old(self).handles_unique()
                            implies !(self.slot_has(a, hh) && self.slot_has(b, hh)) by {
                        if self.slot_has(a, hh) && self.slot_has(b, hh) {
                            if a == k {
                                assert(hh == socket.spec_handle());
                                assert(old(self).slot_has(b, hh));
                            } else if b == k {
                                assert(hh == socket.spec_handle());
                                assert(old(self).slot_has(a, hh));
                            } else {
                                assert(old(self).slot_has(a, hh));
                                assert(old(self).slot_has(b, hh));
                            }
                        }
                    }
                }
                return Ok(h);
            }
            k = k + 1;
        }
        Err(Error::SocketSetFull)
    }

    /// Borrow the live socket carrying `handle`, for the duration of the
    /// call site's borrow.
    ///
    /// Fails with `Error::InvalidSocket` when no live socket carries
    /// `handle`.
    pub fn get(&mut self, handle: Handle) -> (r: Result<&mut Socket<L>>)
        requires
            old(self).wf(),
            old(self).handles_unique(),
        ensures
            r is Ok <==> old(self).contains_handle(handle),
            r matches Err(e) ==> e == Error::InvalidSocket && *final(self) == *old(self),
            r matches Ok(s) ==> exists|i: int|
                {
                    &&& 0 <= i < N
                    &&& #[trigger] old(self).slot_has(i, handle)
                    &&& old(self).slots()[i] == Some(*s)
                    &&& final(self).slots() == old(self).slots().update(i, Some(*final(s)))
                },
    {
        let mut i: usize = 0;
        while i < N
            invariant
                i <= N,
                self.wf(),
                *self == *old(self),
                old(self).handles_unique(),
                forall|j: int| 0 <= j < i ==> !self.slot_has(j, handle),
            decreases N - i,
        {
            let found = match &self.sockets[i] {
                Some(s) => s.handle() == handle,
                None => false,
            };
            if found {
                proof {
                    assert(self.slot_has(i as int, handle));
                }
                match &mut self.sockets[i] {
                    Some(s) => {
                        return Ok(s);
                    },
                    None => {
                        return Err(Error::InvalidSocket);
                    },
                }
            }
            i = i + 1;
        }
        Err(Error::InvalidSocket)
    }

    /// Remove and return the live socket carrying `handle`, leaving its
    /// slot free for reuse by a later `add`.
    ///
    /// Fails with `Error::InvalidSocket` when no live socket carries
    /// `handle`.
    pub fn remove(&mut self, handle: Handle) -> (r: Result<Socket<L>>)
        requires
            old(self).wf(),
        ensures
            final(self).wf(),
            r is Ok <==> old(self).contains_handle(handle),
            r matches Err(e) ==> e == Error::InvalidSocket && *final(self) == *old(self),
            r matches Ok(s) ==> exists|i: int|
                {
                    &&& 0 <= i < N
                    &&& #[trigger] old(self).slot_has(i, handle)
                    &&& old(self).slots()[i] == Some(s)
                    &&& final(self).slots() == old(self).slots().update(i, None)
                },
            old(self).handles_unique() ==> final(self).handles_unique(),
    {
        let mut i: usize = 0;
        while i < N
            invariant
                i <= N,
                self.wf(),
                *self == *old(self),
                forall|j: int| 0 <= j < i ==> !self.slot_has(j, handle),
            decreases N - i,
        {
            let found = match &self.sockets[i] {
                Some(s) => s.handle() == handle,
                None => false,
            };
            if found {
                proof {
                    assert(self.slot_has(i as int, handle));
                }
                let slot = &mut self.sockets[i];
                let taken = slot.take();
                match taken {
                    Some(s) => {
                        proof {
                            assert(self.slots() =~= old(self).slots().update(i as int, None::<
                                Socket<L>,
                            >));
                            assert forall|a: int, b: int, hh: Handle|
                                0 <= a < N && 0 <= b < N && a != b && old(
                                    self,
                                ).handles_unique() implies !(self.slot_has(a, hh)
                                && self.slot_has(b, hh)) by {
                                if self.slot_has(a, hh) && self.slot_has(b, hh) {
                                    assert(old(self).slot_has(a, hh));
                                    assert(old(self).slot_has(b, hh));
                                }
                            }
                        }
                        return Ok(s);
                    },
                    None => {
                        return Err(Error::InvalidSocket);
                    },
                }
            }
            i = i + 1;
        }
        Err(Error::InvalidSocket)
    }

    /// The slots as they stand after a recycling sweep at tick `now`:
    /// every socket whose recycle predicate holds is dropped, every other
    /// slot is kept as it is.
    pub open spec fn spec_recycled(self, now: u64) -> Seq<Option<Socket<L>>> {
        Seq::new(N as nat, |i: int| match self.slots()[i] {
            Some(s) => if s.spec_recyclable(now) {
                None
            } else {
                Some(s)
            },
            None => None,
        })
    }

    /// Sweep the registry at tick `now`: drop every socket that has been
    /// shut down for at least its grace period, freeing its slot, and
    /// report how many slots were freed.
    pub fn recycle(&mut self, now: u64) -> (freed: usize)
        requires
            old(self).wf(),
        ensures
            final(self).wf(),
            final(self).slots() == old(self).spec_recycled(now),
            old(self).handles_unique() ==> final(self).handles_unique(),
    {
        let mut freed: usize = 0;
        let mut i: usize = 0;
        while i < N
            invariant
                i <= N,
                self.wf(),
                freed <= i,
                forall|j: int|
                    0 <= j < i ==> self.slots()[j] == old(self).spec_recycled(now)[j],
                forall|j: int| i <= j < N ==> self.slots()[j] == old(self).slots()[j],
            decreases N - i,
        {
            let drop_it = match &self.sockets[i] {
                Some(s) => s.recycle(now),
                None => false,
            };
            if drop_it {
                self.sockets[i] = None;
                freed = freed + 1;
            }
            i = i + 1;
        }
        proof {
            assert(self.slots() =~= old(self).spec_recycled(now));
            if old(self).handles_unique() {
                assert forall|a: int, b: int, hh: Handle|
                    0 <= a < N && 0 <= b < N && a != b implies !(self.slot_has(a, hh)
                    && self.slot_has(b, hh)) by {
                    if self.slot_has(a, hh) && self.slot_has(b, hh) {
                        assert(old(self).slot_has(a, hh));
                        assert(old(self).slot_has(b, hh));
                    }
                }
            }
        }
        freed
    }
}

/// Freeing a handle makes a later `add` under it succeed: after `remove`
/// of a live handle, the registry no longer contains the handle and has a
/// free slot, which is exactly what `add` requires to return `Ok`.
pub proof fn lemma_remove_then_add<const N: usize, const L: usize>(
    pre: SocketSet<N, L>,
    post: SocketSet<N, L>,
    h: Handle,
    i: int,
)
    requires
        pre.wf(),
        pre.handles_unique(),
        0 <= i < N,
        pre.slot_has(i, h),
        post.slots() == pre.slots().update(i, None::<Socket<L>>),
    ensures
        !post.contains_handle(h),
        post.has_free_slot(),
{
    assert(post.slots()[i] is None);
    assert forall|j: int| 0 <= j < N implies !post.slot_has(j, h) by {
        if post.slot_has(j, h) {
            assert(pre.slot_has(j, h));
            assert(pre.slot_has(i, h));
        }
    }
}

} // verus!

//! A fixed-capacity circular buffer.
//!
//! The buffer holds at most `N` elements. Elements are enqueued at the tail
//! and dequeued at the head; the backing storage is reused cyclically, so a
//! long-lived buffer never allocates beyond its capacity. The abstract
//! content of the buffer is the sequence of elements not yet dequeued, head
//! first, given by the view `self@`.

use vstd::prelude::*;

verus! {

/// A circular buffer of capacity `N`.
///
/// The backing storage grows lazily up to `N` cells and is then reused in
/// place; the read cursor and the length describe which cells currently
/// hold live elements.
#[derive(Debug)]
pub struct RingBuffer<T, const N: usize> {
    /// Backing cells; grows up to `N` and is then recycled in place.
    storage: Vec<T>,
    /// Index of the head element, when the buffer is not empty.
    read_at: usize,
    /// Number of live elements.
    length: usize,
}

impl<T, const N: usize> RingBuffer<T, N> {
    /// Physical index of the `i`-th live element.
    spec fn pos(self, i: int) -> int {
        if self.read_at + i < N {
            self.read_at + i
        } else {
            self.read_at + i - N
        }
    }

    /// Validity of the cursor fields: the length never exceeds the
    /// capacity, and until the storage has grown to full capacity the
    /// live region sits flush at its end, so every live index is backed.
    pub closed spec fn wf(self) -> bool {
        &&& self.storage@.len() <= N
        &&& self.length <= N
        &&& (self.read_at < N || self.read_at == 0)
        &&& (self.storage@.len() < N ==> self.read_at + self.length == self.storage@.len())
    }

    /// Every live element is backed by an initialized storage cell.
    proof fn lemma_pos_valid(self, i: int)
        requires
            self.wf(),
            0 <= i < self@.len(),
        ensures
            0 <= self.pos(i) < self.storage@.len(),
    {
    }
}

impl<T, const N: usize> View for RingBuffer<T, N> {
    type V = Seq<T>;

    /// The live content, head first.
    closed spec fn view(&self) -> Seq<T> {
        Seq::new(self.length as nat, |i: int| self.storage@[self.pos(i)])
    }
}

impl<T: Copy, const N: usize> RingBuffer<T, N> {
    /// An empty buffer. No storage is committed yet; cells are claimed as
    /// elements are first enqueued, up to the capacity, and reused after.
    pub fn new() -> (r: Self)
        ensures
            r.wf(),
            r@ == Seq::<T>::empty(),
    {
        let r = RingBuffer { storage: Vec::new(), read_at: 0, length: 0 };
        proof {
            assert(r@ =~= Seq::<T>::empty());
        }
        r
    }

    /// Capacity fixed at construction.
    pub fn capacity(&self) -> (r: usize)
        ensures
            r == N,
    {
        N
    }

    /// Number of elements currently queued.
    pub fn len(&self) -> (r: usize)
        requires
            self.wf(),
        ensures
            r == self@.len(),
            self@.len() <= N,
    {
        self.length
    }

    /// Number of further elements the buffer can accept.
    pub fn window(&self) -> (r: usize)
        requires
            self.wf(),
        ensures
            r == N - self@.len(),
    {
        N - self.length
    }

    /// Whether nothing is queued.
    pub fn is_empty(&self) -> (r: bool)
        requires
            self.wf(),
        ensures
            r == (self@.len() == 0),
    {
        self.length == 0
    }

    /// Whether the buffer is at capacity.
    pub fn is_full(&self) -> (r: bool)
        requires
            self.wf(),
        ensures
            r == (self@.len() == N),
            self@.len() <= N,
    {
        self.length == N
    }

    /// Discard all queued elements.
    pub fn clear(&mut self)
        requires
            old(self).wf(),
        ensures
            final(self).wf(),
            final(self)@ == Seq::<T>::empty(),
    {
        self.length = 0;
        if self.storage.len() < N {
            self.read_at = self.storage.len();
        } else {
            self.read_at = 0;
        }
        proof {
            assert(self@ =~= Seq::<T>::empty());
        }
    }

    /// Enqueue one element at the tail; reject it when the buffer is full.
    pub fn enqueue(&mut self, item: T) -> (ok: bool)
        requires
            old(self).wf(),
        ensures
            final(self).wf(),
            old(self)@.len() < N ==> ok && final(self)@ == old(self)@.push(item),
            old(self)@.len() == N ==> !ok && final(self)@ == old(self)@,
    {
        if self.length >= N {
            return false;
        }
        let space_end: usize = N - self.length;
        let idx: usize = if self.read_at >= space_end {
            self.read_at - space_end
        } else {
            self.read_at + self.length
        };
        proof {
            assert(idx == self.pos(self.length as int));
        }
        if idx < self.storage.len() {
            self.storage[idx] = item;
        } else {
            self.storage.push(item);
        }
        self.length = self.length + 1;
        proof {
            assert forall|i: int| 0 <= i < old(self)@.len() implies self@[i] == old(self)@[i] by {
                old(self).lemma_pos_valid(i);
            }
            assert(self@ =~= old(self)@.push(item));
        }
        true
    }

    /// Dequeue the head element, if any.
    pub fn dequeue(&mut self) -> (r: Option<T>)
        requires
            old(self).wf(),
        ensures
            final(self).wf(),
            old(self)@.len() == 0 ==> r is None && *final(self) == *old(self),
            old(self)@.len() > 0 ==> r == Some(old(self)@[0]) && final(self)@ == old(self)@.drop_first(),
    {
        if self.length == 0 {
            return None;
        }
        proof {
            self.lemma_pos_valid(0);
        }
        let item = self.storage[self.read_at];
        self.length = self.length - 1;
        self.read_at = if self.read_at + 1 >= N {
            0
        } else {
            self.read_at + 1
        };
        proof {
            assert forall|i: int| 0 <= i < self@.len() implies self@[i] == old(self)@[i + 1] by {
                old(self).lemma_pos_valid(i + 1);
                assert(self.pos(i) == old(self).pos(i + 1));
            }
            assert(self@ =~= old(self)@.drop_first());
        }
        Some(item)
    }

    /// Non-destructive look at the head element.
    pub fn peek_front(&self) -> (r: Option<T>)
        requires
            self.wf(),
        ensures
            self@.len() == 0 ==> r is None,
            self@.len() > 0 ==> r == Some(self@[0]),
    {
        if self.length == 0 {
            return None;
        }
        proof {
            self.lemma_pos_valid(0);
        }
        Some(self.storage[self.read_at])
    }

    /// Length of the contiguous run of queued elements that starts at
    /// logical offset `offset` and does not wrap past the storage end.
    pub closed spec fn contig_len(self, offset: int) -> int {
        let off = if offset > self@.len() {
            self@.len() as int
        } else {
            offset
        };
        let avail = self@.len() - off;
        let start = self.pos(off);
        if avail <= N - start {
            avail
        } else {
            N - start
        }
    }

    /// Bounds on the contiguous run at the head: the content never
    /// exceeds the capacity, the head run never exceeds the content and is
    /// nonempty when anything is queued, and the remainder after the head
    /// run is itself one contiguous run.
    pub proof fn lemma_contig_len_facts(self)
        requires
            self.wf(),
        ensures
            self@.len() <= N,
            0 <= self.contig_len(0) <= self@.len(),
            self@.len() > 0 ==> self.contig_len(0) > 0,
            self.contig_len(self.contig_len(0)) == self@.len() - self.contig_len(0),
    {
    }

    /// Read-only access to a contiguous run of queued elements: at most
    /// `size` elements starting at logical offset `offset`, clamped to what
    /// is queued there without wrapping. The elements are not dequeued.
    pub fn get_allocated(&self, offset: usize, size: usize) -> (r: &[T])
        requires
            self.wf(),
        ensures
            ({
                let off = if offset > self@.len() {
                    self@.len() as int
                } else {
                    offset as int
                };
                let cnt = if size <= self.contig_len(offset as int) {
                    size as int
                } else {
                    self.contig_len(offset as int)
                };
                &&& r@ == self@.subrange(off, off + cnt)
                &&& (offset == 0 && size > 0 && self@.len() > 0 ==> r@.len() > 0)
            }),
    {
        let len = self.length;
        let off: usize = if offset > len {
            len
        } else {
            offset
        };
        let avail: usize = len - off;
        let sum: usize = if self.read_at >= N - off {
            self.read_at - (N - off)
        } else {
            self.read_at + off
        };
        proof {
            assert(sum == self.pos(off as int));
        }
        let contig: usize = if avail <= N - sum {
            avail
        } else {
            N - sum
        };
        let cnt: usize = if size <= contig {
            size
        } else {
            contig
        };
        proof {
            assert forall|j: int| 0 <= j < cnt implies sum + j == #[trigger] self.pos(off + j)
                && 0 <= sum + j < self.storage@.len() by {
                self.lemma_pos_valid(off + j);
            }
            if cnt == 0 {
                if self.storage@.len() < N {
                    assert(sum <= self.storage@.len());
                } else {
                    assert(sum <= self.storage@.len());
                }
            }
        }
        let r = vstd::slice::slice_subrange(self.storage.as_slice(), sum, sum + cnt);
        proof {
            assert(r@ =~= self@.subrange(off as int, off + cnt));
        }
        r
    }

    /// Dequeue up to `count` elements without handing them out, and report
    /// how many were dropped from the head.
    pub fn dequeue_many(&mut self, count: usize) -> (n: usize)
        requires
            old(self).wf(),
        ensures
            final(self).wf(),
            n == if count <= old(self)@.len() {
                count as int
            } else {
                old(self)@.len() as int
            },
            final(self)@ == old(self)@.skip(n as int),
    {
        let avail: usize = self.length;
        let n: usize = if count < avail {
            count
        } else {
            avail
        };
        let mut i: usize = 0;
        proof {
            assert(self@ =~= old(self)@.skip(0));
        }
        while i < n
            invariant
                self.wf(),
                i <= n,
                n <= old(self)@.len(),
                self@ == old(self)@.skip(i as int),
            decreases n - i,
        {
            let r = self.dequeue();
            i = i + 1;
            proof {
                assert(self@ =~= old(self)@.skip(i as int));
            }
        }
        n
    }

    /// Call `f` with the largest contiguous run of queued elements, then
    /// dequeue as many elements as `f` reports having consumed (clamped to
    /// the run it was shown) and hand back `f`'s auxiliary result.
    pub fn dequeue_many_with<R, F: FnOnce(&[T]) -> (usize, R)>(&mut self, f: F) -> (r: R)
        requires
            old(self).wf(),
            forall|s: &[T]| call_requires(f, (s,)),
        ensures
            final(self).wf(),
            exists|s: &[T], n: usize|
                {
                    &&& s@ == old(self)@.subrange(0, old(self).contig_len(0))
                    &&& #[trigger] call_ensures(f, (s,), (n, r))
                    &&& final(self)@ == old(self)@.skip(
                        if n <= s@.len() {
                            n as int
                        } else {
                            s@.len() as int
                        },
                    )
                },
    {
        let buf = self.get_allocated(0, N);
        let shown: usize = buf.len();
        let (n, res) = f(buf);
        let consumed: usize = if n <= shown {
            n
        } else {
            shown
        };
        self.dequeue_many(consumed);
        res
    }

    /// Call `f` with the run of queued elements that starts at the head
    /// and, when the queued region wraps past the storage end, a second
    /// run covering the remainder, so that the two runs concatenated are
    /// the whole queued content. Dequeue as many elements as `f` reports
    /// having consumed, clamped to what is queued.
    pub fn dequeue_many_with_wrapping<R, F: FnOnce(&[T], Option<&[T]>) -> (usize, R)>(
        &mut self,
        f: F,
    ) -> (r: R)
        requires
            old(self).wf(),
            forall|a: &[T], b: Option<&[T]>| call_requires(f, (a, b)),
        ensures
            final(self).wf(),
            exists|a: &[T], b: Option<&[T]>, n: usize|
                {
                    &&& a@ == old(self)@.subrange(0, old(self).contig_len(0))
                    &&& match b {
                        Some(bs) => old(self).contig_len(0) < old(self)@.len() && bs@ == old(
                            self,
                        )@.subrange(old(self).contig_len(0), old(self)@.len() as int),
                        None => old(self).contig_len(0) == old(self)@.len(),
                    }
                    &&& #[trigger] call_ensures(f, (a, b), (n, r))
                    &&& final(self)@ == old(self)@.skip(
                        if n <= old(self)@.len() {
                            n as int
                        } else {
                            old(self)@.len() as int
                        },
                    )
                },
    {
        let avail: usize = self.length;
        let first = self.get_allocated(0, N);
        let first_len: usize = first.len();
        let (n, res) = if first_len < avail {
            let second = self.get_allocated(first_len, N);
            proof {
                assert(second@ =~= self@.subrange(
                    self.contig_len(0),
                    self@.len() as int,
                ));
            }
            f(first, Some(second))
        } else {
            f(first, None)
        };
        let consumed: usize = if n <= avail {
            n
        } else {
            avail
        };
        self.dequeue_many(consumed);
        res
    }

    /// Enqueue a prefix of `data`, as much as free space allows, and
    /// report how many elements were actually written.
    pub fn enqueue_slice(&mut self, data: &[T]) -> (count: usize)
        requires
            old(self).wf(),
        ensures
            final(self).wf(),
            count == if data@.len() <= N - old(self)@.len() {
                data@.len() as int
            } else {
                N - old(self)@.len()
            },
            final(self)@ == old(self)@ + data@.subrange(0, count as int),
    {
        let space: usize = N - self.length;
        let data_len: usize = data.len();
        let n: usize = if data_len < space {
            data_len
        } else {
            space
        };
        let mut i: usize = 0;
        proof {
            assert(self@ =~= old(self)@ + data@.subrange(0, 0));
        }
        while i < n
            invariant
                self.wf(),
                i <= n,
                n <= data@.len(),
                n == if data@.len() <= N - old(self)@.len() {
                    data@.len() as int
                } else {
                    N - old(self)@.len()
                },
                self@ == old(self)@ + data@.subrange(0, i as int),
            decreases n - i,
        {
            let v: T = *vstd::slice::slice_index_get(data, i);
            let ghost pre = self@;
            let ok = self.enqueue(v);
            proof {
                assert(ok);
                assert(data@.subrange(0, i + 1) =~= data@.subrange(0, i as int).push(data@[i as int]));
                assert(self@ =~= old(self)@ + data@.subrange(0, i + 1));
            }
            i = i + 1;
        }
        n
    }

    /// Dequeue elements into a prefix of `out`, as many as are queued, and
    /// report how many elements were actually read.
    pub fn dequeue_slice(&mut self, out: &mut [T]) -> (count: usize)
        requires
            old(self).wf(),
        ensures
            final(self).wf(),
            count == if old(out)@.len() <= old(self)@.len() {
                old(out)@.len() as int
            } else {
                old(self)@.len() as int
            },
            final(self)@ == old(self)@.skip(count as int),
            final(out)@ == old(self)@.subrange(0, count as int) + old(out)@.skip(count as int),
    {
        let out_len: usize = out.len();
        let avail: usize = self.length;
        let n: usize = if out_len < avail {
            out_len
        } else {
            avail
        };
        let mut i: usize = 0;
        proof {
            assert(self@ =~= old(self)@.skip(0));
            assert(out@ =~= old(self)@.subrange(0, 0) + old(out)@.skip(0));
        }
        while i < n
            invariant
                self.wf(),
                i <= n,
                n <= old(out)@.len(),
                n == if old(out)@.len() <= old(self)@.len() {
                    old(out)@.len() as int
                } else {
                    old(self)@.len() as int
                },
                out@.len() == old(out)@.len(),
                self@ == old(self)@.skip(i as int),
                out@ == old(self)@.subrange(0, i as int) + old(out)@.skip(i as int),
            decreases n - i,
        {
            let r = self.dequeue();
            proof {
                assert(r is Some);
            }
            match r {
                Some(v) => {
                    out[i] = v;
                }
                None => {}
            }
            i = i + 1;
            proof {
                assert(self@ =~= old(self)@.skip(i as int));
                assert(out@ =~= old(self)@.subrange(0, i as int) + old(out)@.skip(i as int));
            }
        }
        n
    }
}

/// Capacity invariant: a valid buffer never holds fewer than zero nor
/// more than `N` elements, in every state. How far one operation can go
/// is pinned by its own contract: `enqueue_slice` writes exactly up to
/// the free window and `dequeue_slice` reads exactly up to the length.
pub proof fn lemma_capacity_invariant<T, const N: usize>(b: RingBuffer<T, N>)
    requires
        b.wf(),
    ensures
        0 <= b@.len() <= N,
{
}

/// Round trip through the buffer: enqueuing `data` behind content `c`
/// yields the content `c + data`, and reading everything back returns
/// first `c`, then `data`, in order. Together with the view-level
/// contracts of `enqueue_slice` and `dequeue_slice`, which hold across
/// any number of cursor wraps, the bytes read back equal the bytes
/// written, in order.
pub proof fn lemma_round_trip<T>(c: Seq<T>, data: Seq<T>)
    ensures
        (c + data).subrange(0, c.len() as int) =~= c,
        (c + data).skip(c.len() as int) =~= data,
{
}

} // verus!

//! A byte ring with contiguous free and filled regions.

use vstd::prelude::*;

verus! {

/// A byte ring over a fixed storage.
///
/// Bytes are written in place: `write` puts a byte into the contiguous free region behind the
/// contents, and `push` appends the first bytes of that region to them. `pop_buf` lends the
/// contiguous region at the front of the contents, and `pop` removes bytes from there.
pub struct RingBuffer {
    buf: Vec<u8>,
    start: usize,
    end: usize,
    empty: bool,
}

/// Position `i` on a ring of `capacity` places, where `i` is at most one turn ahead.
pub open spec fn wrapped(i: int, capacity: int) -> int {
    if i < capacity {
        i
    } else {
        i - capacity
    }
}

/// Size of the contiguous free region behind `len` bytes that start at `head`.
pub open spec fn window_len(head: int, len: int, capacity: int) -> int {
    if len == capacity {
        0
    } else if head + len < capacity {
        capacity - (head + len)
    } else {
        capacity - len
    }
}

/// Size of the contiguous region at the front of `len` bytes that start at `head`.
pub open spec fn front_len(head: int, len: int, capacity: int) -> int {
    if len <= capacity - head {
        len
    } else {
        capacity - head
    }
}

impl View for RingBuffer {
    type V = Seq<u8>;

    /// The bytes in the ring, oldest first.
    closed spec fn view(&self) -> Seq<u8> {
        Seq::new(
            self.filled() as nat,
            |i: int| self.buf@[wrapped(self.start + i, self.buf@.len() as int)],
        )
    }
}

impl RingBuffer {
    spec fn filled(&self) -> int {
        if self.empty {
            0
        } else if self.start < self.end {
            self.end - self.start
        } else {
            self.buf@.len() - self.start + self.end
        }
    }

    /// The number of bytes that the ring can hold.
    pub closed spec fn capacity(&self) -> int {
        self.buf@.len() as int
    }

    /// The place in the storage at which the contents start.
    pub closed spec fn head(&self) -> int {
        self.start as int
    }

    /// The bytes that currently stand in the contiguous free region behind the contents.
    pub closed spec fn window(&self) -> Seq<u8> {
        let n = window_len(self.start as int, self.filled(), self.buf@.len() as int);
        self.buf@.subrange(self.end as int, self.end + n)
    }

    /// The invariant of the ring.
    pub closed spec fn wf(&self) -> bool {
        &&& self.start < self.buf@.len() || self.buf@.len() == 0 && self.start == 0
        &&& self.end < self.buf@.len() || self.buf@.len() == 0 && self.end == 0
        &&& self.empty ==> self.start == self.end
        &&& self.buf@.len() == 0 ==> self.empty
    }

    /// What the invariant says of the public measures.
    pub proof fn lemma_measures(&self)
        requires
            self.wf(),
        ensures
            0 <= self@.len() <= self.capacity(),
            0 <= self.head(),
            self.head() < self.capacity() || self.capacity() == 0 && self.head() == 0,
            self.window().len() == window_len(self.head(), self@.len() as int, self.capacity()),
            self.window().len() + self@.len() <= self.capacity() <= usize::MAX,
    {
        assert(self.buf.len() == self.buf@.len());
    }

    /// Creates an empty ring over the given storage.
    pub fn new(buf: Vec<u8>) -> (r: RingBuffer)
        ensures
            r.wf(),
            r@ == Seq::<u8>::empty(),
            r.head() == 0,
            r.capacity() == buf@.len(),
            r.window() == buf@,
    {
        let r = RingBuffer { buf, start: 0, end: 0, empty: true };
        proof {
            assert(r@ =~= Seq::<u8>::empty());
            assert(r.window() =~= buf@);
        }
        r
    }

    /// The size of the contiguous free region behind the contents; 0 if the ring is full.
    pub fn push_len(&self) -> (n: usize)
        requires
            self.wf(),
        ensures
            n == self.window().len(),
            n == window_len(self.head(), self@.len() as int, self.capacity()),
    {
        if self.start == self.end && !self.empty {
            0
        } else if self.start <= self.end {
            self.buf.len() - self.end
        } else {
            self.start - self.end
        }
    }

    /// Writes a byte into the contiguous free region, `offset` bytes behind the contents.
    pub fn write(&mut self, offset: usize, byte: u8)
        requires
            old(self).wf(),
            offset < old(self).window().len(),
        ensures
            final(self).wf(),
            final(self)@ == old(self)@,
            final(self).head() == old(self).head(),
            final(self).capacity() == old(self).capacity(),
            final(self).window() == old(self).window().update(offset as int, byte),
    {
        assert(self.buf.len() == self.buf@.len());
        let at: usize = self.end + offset;
        self.buf[at] = byte;
        proof {
            assert(self@ =~= old(self)@);
            assert(self.window() =~= old(self).window().update(offset as int, byte));
        }
    }

    /// Appends as many bytes of `data` as fit into the contiguous free region, and tells how many.
    pub fn push_slice(&mut self, data: &[u8]) -> (n: usize)
        requires
            old(self).wf(),
        ensures
            final(self).wf(),
            n == if data@.len() <= old(self).window().len() {
                data@.len()
            } else {
                old(self).window().len()
            },
            final(self)@ == old(self)@ + data@.take(n as int),
            final(self).head() == old(self).head(),
            final(self).capacity() == old(self).capacity(),
    {
        let room: usize = self.push_len();
        let n: usize = if data.len() <= room {
            data.len()
        } else {
            room
        };
        let mut i: usize = 0;
        while i < n
            invariant
                i <= n <= data@.len(),
                n <= old(self).window().len(),
                self.wf(),
                self@ == old(self)@,
                self.head() == old(self).head(),
                self.capacity() == old(self).capacity(),
                self.window().len() == old(self).window().len(),
                self.window().take(i as int) == data@.take(i as int),
            decreases n - i,
        {
            let ghost before = self.window();
            self.write(i, data[i]);
            i = i + 1;
            proof {
                assert(self.window().take(i as int) =~= before.take(i - 1).push(data@[i - 1]));
                assert(data@.take(i as int) =~= data@.take(i - 1).push(data@[i - 1]));
            }
        }
        self.push(n);
        n
    }

    /// Appends the first `n` bytes of the contiguous free region to the contents.
    pub fn push(&mut self, n: usize)
        requires
            old(self).wf(),
            n <= old(self).window().len(),
        ensures
            final(self).wf(),
            final(self)@ == old(self)@ + old(self).window().take(n as int),
            final(self).head() == old(self).head(),
            final(self).capacity() == old(self).capacity(),
            n < old(self).window().len() ==> final(self).window() == old(self).window().skip(
                n as int,
            ),
    {
        if n == 0 {
            proof {
                assert(self@ =~= old(self)@ + old(self).window().take(0));
                assert(self.window() =~= old(self).window().skip(0));
            }
            return;
        }
        assert(self.buf.len() == self.buf@.len());
        self.end = self.wrap(self.end + n);
        self.empty = false;
        proof {
            assert(self@ =~= old(self)@ + old(self).window().take(n as int));
            if n < old(self).window().len() {
                assert(self.window() =~= old(self).window().skip(n as int));
            }
        }
    }

    /// Lends the contiguous region at the front of the contents; it is empty if the ring is.
    pub fn pop_buf(&self) -> (r: &[u8])
        requires
            self.wf(),
        ensures
            r@ == self@.take(front_len(self.head(), self@.len() as int, self.capacity())),
            r@.len() == front_len(self.head(), self@.len() as int, self.capacity()),
            r@.len() == 0 <==> self@.len() == 0,
    {
        let n: usize = if self.empty {
            0
        } else if self.end <= self.start {
            self.buf.len() - self.start
        } else {
            self.end - self.start
        };
        let r = vstd::slice::slice_subrange(self.buf.as_slice(), self.start, self.start + n);
        proof {
            assert(r@ =~= self@.take(front_len(self.head(), self@.len() as int, self.capacity())));
        }
        r
    }

    /// Removes the first `n` bytes, which have to stand in the region that `pop_buf` lends.
    ///
    /// The free region only grows: what stood in it stays in place.
    pub fn pop(&mut self, n: usize)
        requires
            old(self).wf(),
            n <= front_len(old(self).head(), old(self)@.len() as int, old(self).capacity()),
        ensures
            final(self).wf(),
            final(self)@ == old(self)@.skip(n as int),
            final(self).head() == if n == 0 {
                old(self).head()
            } else {
                wrapped(old(self).head() + n, old(self).capacity())
            },
            final(self).capacity() == old(self).capacity(),
            old(self).window().is_prefix_of(final(self).window()),
    {
        if n == 0 {
            proof {
                assert(self@ =~= old(self)@.skip(0));
            }
            return;
        }
        assert(self.buf.len() == self.buf@.len());
        self.start = self.wrap(self.start + n);
        self.empty = self.start == self.end;
        proof {
            assert(self@ =~= old(self)@.skip(n as int));
        }
    }

    /// Whether every place holds a byte; a ring without places is not full.
    pub fn is_full(&self) -> (r: bool)
        requires
            self.wf(),
        ensures
            r == (self@.len() == self.capacity() && self.capacity() > 0),
    {
        self.start == self.end && !self.empty
    }

    /// Whether the ring holds no byte.
    pub fn is_empty(&self) -> (r: bool)
        requires
            self.wf(),
        ensures
            r == (self@.len() == 0),
    {
        self.empty
    }

    fn wrap(&self, n: usize) -> (r: usize)
        requires
            n <= self.buf@.len(),
        ensures
            r == wrapped(n as int, self.buf@.len() as int),
    {
        if n == self.buf.len() {
            0
        } else {
            n
        }
    }
}

/// Where a place one turn ahead at most stands on a ring.
pub proof fn lemma_wraps_around(i: int, capacity: int)
    requires
        0 <= i < 2 * capacity,
    ensures
        wrapped(i, capacity) == i % capacity,
{
    if i < capacity {
        vstd::arithmetic::div_mod::lemma_small_mod(i as nat, capacity as nat);
    } else {
        vstd::arithmetic::div_mod::lemma_small_mod((i - capacity) as nat, capacity as nat);
        vstd::arithmetic::div_mod::lemma_mod_add_multiples_vanish(i - capacity, capacity);
    }
}

/// The contiguous free region holds no filled place and does not reach over the end of the storage,
/// and it cannot be any larger: every free place is in it, or it ends where the storage does.
pub proof fn lemma_window_is_all_there_is(head: int, len: int, capacity: int)
    requires
        0 <= head < capacity,
        0 <= len <= capacity,
    ensures
        0 <= window_len(head, len, capacity),
        len + window_len(head, len, capacity) <= capacity,
        (head + len) % capacity + window_len(head, len, capacity) <= capacity,
        len + window_len(head, len, capacity) == capacity || (head + len) % capacity + window_len(
            head,
            len,
            capacity,
        ) == capacity,
        len < capacity <==> window_len(head, len, capacity) > 0,
{
    lemma_wraps_around(head + len, capacity);
}

/// The contiguous region at the front holds filled places alone and does not reach over the end of
/// the storage, and it cannot be any larger.
pub proof fn lemma_front_is_all_there_is(head: int, len: int, capacity: int)
    requires
        0 <= head < capacity,
        0 <= len <= capacity,
    ensures
        0 <= front_len(head, len, capacity) <= len,
        head + front_len(head, len, capacity) <= capacity,
        front_len(head, len, capacity) == len || head + front_len(head, len, capacity) == capacity,
        len > 0 <==> front_len(head, len, capacity) > 0,
{
}

/// Two turns are enough: what is left after the region at the front was taken stands in one region,
/// and so does the room that is left after the free region was filled.
pub proof fn lemma_two_turns(head: int, len: int, capacity: int)
    requires
        0 <= head < capacity,
        0 <= len <= capacity,
    ensures
        ({
            let front = front_len(head, len, capacity);
            let window = window_len(head, len, capacity);
            &&& front + front_len((head + front) % capacity, len - front, capacity) == len
            &&& window + window_len(head, len + window, capacity) == capacity - len
        }),
{
    lemma_wraps_around(head + front_len(head, len, capacity), capacity);
}

} // verus!

//! A bounded cache of reusable byte buffers, owned by the selector, handed
//! out to in-flight overlapped operations and returned once each
//! operation's completion has been observed.

use vstd::prelude::*;

verus! {

/// A reusable byte buffer: the bytes it currently holds together with the
/// logical capacity reserved for it.  The capacity never falls below the
/// length of the contents.
pub struct Buffer {
    data: Vec<u8>,
    cap: usize,
}

impl View for Buffer {
    type V = Seq<u8>;

    closed spec fn view(&self) -> Seq<u8> {
        self.data@
    }
}

impl Buffer {
    /// The logical capacity reserved for this buffer.
    pub closed spec fn capacity(&self) -> usize {
        self.cap
    }

    /// The contents always fit the reserved capacity.
    pub closed spec fn wf(&self) -> bool {
        self.data@.len() <= self.cap
    }

    /// Returns a fresh, empty buffer with the given capacity.
    pub fn with_capacity(cap: usize) -> (b: Buffer)
        ensures
            b.wf(),
            b@ =~= Seq::<u8>::empty(),
            b.capacity() == cap,
    {
        Buffer { data: Vec::new(), cap }
    }

    /// Returns the number of bytes the buffer currently holds.
    pub fn len(&self) -> (n: usize)
        ensures
            n == self@.len(),
    {
        self.data.len()
    }

    /// Empties the buffer, keeping its capacity.
    pub fn clear(&mut self)
        ensures
            final(self).wf(),
            final(self)@ =~= Seq::<u8>::empty(),
            final(self).capacity() == old(self).capacity(),
    {
        self.data.clear();
    }

    /// Grows the reserved capacity to at least `min`.
    pub fn reserve(&mut self, min: usize)
        requires
            old(self).wf(),
        ensures
            final(self).wf(),
            final(self)@ == old(self)@,
            final(self).capacity() >= min,
            final(self).capacity() >= old(self).capacity(),
    {
        if self.cap < min {
            self.cap = min;
        }
    }

    /// Replaces the contents with a copy of `src`, growing the capacity if
    /// `src` is longer than the reserved capacity.
    pub fn load(&mut self, src: &Vec<u8>)
        requires
            old(self).wf(),
        ensures
            final(self).wf(),
            final(self)@ == src@,
            final(self).capacity() >= old(self).capacity(),
            final(self).capacity() >= src@.len(),
    {
        self.data.clear();
        let n = src.len();
        if self.cap < n {
            self.cap = n;
        }
        let mut i: usize = 0;
        while i < n
            invariant
                i <= n,
                n == src@.len(),
                self.data@ == src@.subrange(0, i as int),
                self.cap >= n,
                self.cap >= old(self).capacity(),
            decreases n - i,
        {
            self.data.push(src[i]);
            i = i + 1;
            proof {
                assert(self.data@ =~= src@.subrange(0, i as int));
            }
        }
        proof {
            assert(self.data@ =~= src@);
        }
    }

    /// Returns the reserved capacity.
    pub fn reserved(&self) -> (c: usize)
        ensures
            c == self.capacity(),
    {
        self.cap
    }

    /// Returns the byte at position `i`.
    pub fn byte_at(&self, i: usize) -> (b: u8)
        requires
            i < self@.len(),
        ensures
            b == self@[i as int],
    {
        self.data[i]
    }
}

/// A bounded stack of reusable byte buffers.  Every stored buffer is
/// logically empty; `get` pops one (or allocates fresh) and `put` pushes
/// one back only while the pool is below its bound, else drops it.  The
/// pool also counts the buffers currently outstanding: handed out by `get`
/// and not yet returned by `put`.
pub struct BufferPool {
    bufs: Vec<Buffer>,
    bound: usize,
    outstanding: usize,
}

impl BufferPool {
    /// The number of buffers the pool currently stores.
    pub closed spec fn size(&self) -> nat {
        self.bufs@.len()
    }

    /// The configured bound on the number of stored buffers.
    pub closed spec fn bound(&self) -> usize {
        self.bound
    }

    /// The number of buffers handed out and not yet returned.
    pub closed spec fn outstanding(&self) -> usize {
        self.outstanding
    }

    /// The pool never stores more buffers than its bound, and every stored
    /// buffer is well-formed and empty.
    pub closed spec fn wf(&self) -> bool {
        &&& self.bufs@.len() <= self.bound
        &&& forall|i: int|
            0 <= i < self.bufs@.len() ==> (#[trigger] self.bufs@[i]).wf() && self.bufs@[i]@.len()
                == 0
    }

    /// Returns an empty pool whose bound is `cap`.
    pub fn new(cap: usize) -> (p: BufferPool)
        ensures
            p.wf(),
            p.size() == 0,
            p.bound() == cap,
            p.outstanding() == 0,
    {
        BufferPool { bufs: Vec::new(), bound: cap, outstanding: 0 }
    }

    /// Hands out a buffer: pops a stored one and reshapes it to at least
    /// the requested capacity, or allocates a fresh one.  Never fails.
    pub fn get(&mut self, default_cap: usize) -> (b: Buffer)
        requires
            old(self).wf(),
            old(self).outstanding() < usize::MAX,
        ensures
            final(self).wf(),
            b.wf(),
            b@ =~= Seq::<u8>::empty(),
            b.capacity() >= default_cap,
            final(self).bound() == old(self).bound(),
            final(self).outstanding() == old(self).outstanding() + 1,
            final(self).size() == if old(self).size() > 0 {
                old(self).size() - 1
            } else {
                0
            },
    {
        self.outstanding = self.outstanding + 1;
        match self.bufs.pop() {
            Some(mut b) => {
                b.reserve(default_cap);
                b
            },
            None => Buffer::with_capacity(default_cap),
        }
    }

    /// Returns how many buffers the pool currently stores.
    pub fn stored(&self) -> (n: usize)
        ensures
            n == self.size(),
    {
        self.bufs.len()
    }

    /// Returns how many buffers are handed out and not yet returned.
    pub fn in_use(&self) -> (n: usize)
        ensures
            n == self.outstanding(),
    {
        self.outstanding
    }

    /// Takes a buffer back: resets it to empty and stores it while the
    /// pool is below its bound, else drops it.  Never fails.
    pub fn put(&mut self, buf: Buffer)
        requires
            old(self).wf(),
        ensures
            final(self).wf(),
            final(self).bound() == old(self).bound(),
            final(self).outstanding() == if old(self).outstanding() > 0 {
                old(self).outstanding() - 1
            } else {
                0
            },
            final(self).size() == if old(self).size() < old(self).bound() {
                old(self).size() + 1
            } else {
                old(self).size()
            },
    {
        if self.outstanding > 0 {
            self.outstanding = self.outstanding - 1;
        }
        if self.bufs.len() < self.bound {
            let mut buf = buf;
            buf.clear();
            self.bufs.push(buf);
        }
    }
}

/// A well-formed pool stores at most its bound.
pub proof fn lemma_pool_size_bound(p: BufferPool)
    requires
        p.wf(),
    ensures
        p.size() <= p.bound(),
{
}

} // verus!

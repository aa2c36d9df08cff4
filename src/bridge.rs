//! The bounded first-in first-out buffer that hands audio samples from the
//! control context to the real-time output callback. Draining never blocks and
//! never allocates: a shortfall is filled with silence.

use vstd::prelude::*;

verus! {

/// Position of the `i`-th queued item in storage of `cap` cells whose oldest item is at `head`.
pub open spec fn cell(head: int, i: int, cap: int) -> int {
    if head + i < cap {
        head + i
    } else {
        head + i - cap
    }
}

/// A fixed-capacity ring of samples with one producer and one consumer.
pub struct RingBuffer<T> {
    buf: Vec<T>,
    head: usize,
    len: usize,
    silence: T,
}

impl<T: Copy> RingBuffer<T> {
    /// The queued samples, oldest first.
    pub closed spec fn view(&self) -> Seq<T> {
        Seq::new(self.len as nat, |i: int| self.buf@[cell(self.head as int, i, self.buf@.len() as int)])
    }

    /// Number of samples the ring can hold; fixed at construction.
    pub closed spec fn cap(&self) -> nat {
        self.buf@.len()
    }

    /// The value written where no sample is available.
    pub closed spec fn silence_value(&self) -> T {
        self.silence
    }

    pub closed spec fn wf(&self) -> bool {
        &&& self.buf@.len() > 0
        &&& self.head < self.buf@.len()
        &&& self.len <= self.buf@.len()
    }

    /// An empty ring of `capacity` cells; `silence` fills output shortfalls.
    pub fn new(capacity: usize, silence: T) -> (r: Self)
        requires
            capacity > 0,
        ensures
            r.wf(),
            r@ == Seq::<T>::empty(),
            r.cap() == capacity,
            r.silence_value() == silence,
    {
        let mut buf: Vec<T> = Vec::new();
        let mut i: usize = 0;
        while i < capacity
            invariant
                i <= capacity,
                buf@.len() == i,
            decreases capacity - i,
        {
            buf.push(silence);
            i = i + 1;
        }
        let r = RingBuffer { buf, head: 0, len: 0, silence };
        proof {
            assert(r@ =~= Seq::<T>::empty());
        }
        r
    }

    pub fn capacity(&self) -> (r: usize)
        requires
            self.wf(),
        ensures
            r == self.cap(),
    {
        self.buf.len()
    }

    /// Number of queued samples.
    pub fn len(&self) -> (r: usize)
        requires
            self.wf(),
        ensures
            r == self@.len(),
    {
        self.len
    }

    /// Appends `x` at the back. A full ring is left unchanged and `false` returned.
    pub fn push(&mut self, x: T) -> (r: bool)
        requires
            old(self).wf(),
        ensures
            final(self).wf(),
            final(self).cap() == old(self).cap(),
            final(self).silence_value() == old(self).silence_value(),
            r == (old(self)@.len() < old(self).cap()),
            r ==> final(self)@ == old(self)@.push(x),
            !r ==> final(self)@ == old(self)@,
    {
        let cap = self.buf.len();
        if self.len == cap {
            return false;
        }
        let ghost v0 = self@;
        let pos = if self.head < cap - self.len {
            self.head + self.len
        } else {
            self.head - (cap - self.len)
        };
        self.buf.set(pos, x);
        self.len = self.len + 1;
        proof {
            assert(self@ =~= v0.push(x));
        }
        true
    }

    /// Appends all of `items`, or none of them when they do not fit.
    pub fn push_all(&mut self, items: &[T]) -> (r: bool)
        requires
            old(self).wf(),
        ensures
            final(self).wf(),
            final(self).cap() == old(self).cap(),
            final(self).silence_value() == old(self).silence_value(),
            r == (old(self)@.len() + items@.len() <= old(self).cap()),
            r ==> final(self)@ == old(self)@ + items@,
            !r ==> final(self)@ == old(self)@,
    {
        let n = items.len();
        if n > self.buf.len() - self.len {
            return false;
        }
        let ghost v0 = self@;
        let mut k: usize = 0;
        while k < n
            invariant
                self.wf(),
                self.cap() == old(self).cap(),
                self.silence_value() == old(self).silence_value(),
                n == items@.len(),
                k <= n,
                v0.len() + n <= self.cap(),
                self@ == v0 + items@.subrange(0, k as int),
            decreases n - k,
        {
            let ok = self.push(items[k]);
            proof {
                assert(ok);
                assert(v0 + items@.subrange(0, k + 1) =~= (v0 + items@.subrange(0, k as int)).push(items@[k as int]));
            }
            k = k + 1;
        }
        proof {
            assert(items@.subrange(0, n as int) =~= items@);
        }
        true
    }

    /// Removes and returns the oldest sample.
    pub fn pop(&mut self) -> (r: Option<T>)
        requires
            old(self).wf(),
        ensures
            final(self).wf(),
            final(self).cap() == old(self).cap(),
            final(self).silence_value() == old(self).silence_value(),
            old(self)@.len() == 0 ==> r is None && final(self)@ == old(self)@,
            old(self)@.len() > 0 ==> r == Some(old(self)@[0]) && final(self)@ == old(self)@.drop_first(),
    {
        if self.len == 0 {
            return None;
        }
        let ghost v0 = self@;
        let x = self.buf[self.head];
        let cap = self.buf.len();
        self.head = if self.head + 1 < cap {
            self.head + 1
        } else {
            0
        };
        self.len = self.len - 1;
        proof {
            assert(self@ =~= v0.drop_first());
        }
        Some(x)
    }

    /// Fills `out` from the front of the ring in FIFO order and writes silence
    /// into whatever remains. Returns how many queued samples were taken.
    pub fn drain_into(&mut self, out: &mut [T]) -> (r: usize)
        requires
            old(self).wf(),
        ensures
            final(self).wf(),
            final(self).cap() == old(self).cap(),
            final(self).silence_value() == old(self).silence_value(),
            r == if old(self)@.len() < old(out)@.len() {
                old(self)@.len()
            } else {
                old(out)@.len()
            },
            final(self)@ == old(self)@.skip(r as int),
            final(out)@.len() == old(out)@.len(),
            forall|i: int| 0 <= i < r ==> #[trigger] final(out)@[i] == old(self)@[i],
            forall|i: int| r <= i < old(out)@.len() ==> #[trigger] final(out)@[i] == old(self).silence_value(),
    {
        let ghost v0 = self@;
        let n = out.len();
        let mut k: usize = 0;
        let mut taken: usize = 0;
        while k < n
            invariant
                self.wf(),
                self.cap() == old(self).cap(),
                self.silence_value() == old(self).silence_value(),
                v0 == old(self)@,
                n == old(out)@.len(),
                out@.len() == n,
                k <= n,
                taken == if v0.len() < k { v0.len() } else { k as nat },
                self@ == v0.skip(taken as int),
                forall|i: int| 0 <= i < taken ==> #[trigger] out@[i] == v0[i],
                forall|i: int| taken <= i < k ==> #[trigger] out@[i] == old(self).silence_value(),
            decreases n - k,
        {
            match self.pop() {
                Some(x) => {
                    out[k] = x;
                    taken = taken + 1;
                    proof {
                        assert(v0.skip(taken as int) =~= v0.skip(taken - 1).drop_first());
                    }
                },
                None => {
                    out[k] = self.silence;
                },
            }
            k = k + 1;
        }
        taken
    }
}

} // verus!

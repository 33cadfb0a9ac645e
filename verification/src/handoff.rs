use vstd::prelude::*;

verus! {

/// Fixed-capacity first-in-first-out handoff of plain values.
///
/// In the running system one producer thread calls `try_push` and one
/// consumer thread calls `try_pop`; neither call ever blocks. `try_push`
/// silently drops the value when the handoff is full (the producer is a
/// real-time audio callback and must never wait), and `try_pop` returns
/// nothing when it is empty. The view of a handoff is the sequence of
/// stored values, oldest first; the contracts below pin the FIFO behaviour:
/// a push appends at the back, a pop removes exactly the front, so no value
/// ever comes out that was not pushed, and values never reorder.
pub struct RingHandoff<T> {
    buf: Vec<T>,
    capacity: usize,
}

impl<T> View for RingHandoff<T> {
    type V = Seq<T>;

    closed spec fn view(&self) -> Seq<T> {
        self.buf@
    }
}

impl<T> RingHandoff<T> {
    /// Capacity fixed at construction; the length of the view never exceeds it.
    pub closed spec fn spec_capacity(&self) -> nat {
        self.capacity as nat
    }

    pub open spec fn wf(&self) -> bool {
        self@.len() <= self.spec_capacity()
    }

    /// The prefix of `vals` that fits into `avail` free slots: what a run of
    /// element-wise pushes adds to a handoff with that much room.
    pub open spec fn fitting(avail: nat, vals: Seq<T>) -> Seq<T> {
        if vals.len() <= avail {
            vals
        } else {
            vals.take(avail as int)
        }
    }

    pub fn new(capacity: usize) -> (h: Self)
        ensures
            h.wf(),
            h@ == Seq::<T>::empty(),
            h.spec_capacity() == capacity,
    {
        RingHandoff { buf: Vec::new(), capacity }
    }

    pub fn capacity(&self) -> (c: usize)
        ensures
            c == self.spec_capacity(),
    {
        self.capacity
    }

    pub fn len(&self) -> (n: usize)
        ensures
            n == self@.len(),
    {
        self.buf.len()
    }

    /// Non-blocking push: appends `v` at the back unless the handoff is
    /// full, in which case the value is dropped and `false` is returned.
    pub fn try_push(&mut self, v: T) -> (ok: bool)
        requires
            old(self).wf(),
        ensures
            final(self).wf(),
            final(self).spec_capacity() == old(self).spec_capacity(),
            ok == (old(self)@.len() < old(self).spec_capacity()),
            ok ==> final(self)@ == old(self)@.push(v),
            !ok ==> final(self)@ == old(self)@,
    {
        if self.buf.len() < self.capacity {
            self.buf.push(v);
            true
        } else {
            false
        }
    }

    /// Non-blocking pop: removes and returns the oldest stored value, or
    /// returns nothing when the handoff is empty.
    pub fn try_pop(&mut self) -> (r: Option<T>)
        requires
            old(self).wf(),
        ensures
            final(self).wf(),
            final(self).spec_capacity() == old(self).spec_capacity(),
            old(self)@.len() == 0 ==> r is None && final(self)@ == old(self)@,
            old(self)@.len() > 0 ==> r == Some(old(self)@[0])
                && final(self)@ == old(self)@.drop_first(),
    {
        if self.buf.len() > 0 {
            let v = self.buf.remove(0);
            proof {
                assert(old(self)@.remove(0) =~= old(self)@.drop_first());
            }
            Some(v)
        } else {
            None
        }
    }
}

impl<T: Copy> RingHandoff<T> {
    /// Pushes each value of `vals` in order; once the handoff is full the
    /// remaining values are dropped, so exactly the fitting prefix is added.
    pub fn push_all(&mut self, vals: &Vec<T>) -> (pushed: usize)
        requires
            old(self).wf(),
        ensures
            final(self).wf(),
            final(self).spec_capacity() == old(self).spec_capacity(),
            final(self)@ == old(self)@ + Self::fitting(
                (old(self).spec_capacity() - old(self)@.len()) as nat,
                vals@,
            ),
            pushed == Self::fitting(
                (old(self).spec_capacity() - old(self)@.len()) as nat,
                vals@,
            ).len(),
    {
        let ghost avail: nat = (old(self).spec_capacity() - old(self)@.len()) as nat;
        let mut i: usize = 0;
        let mut pushed: usize = 0;
        while i < vals.len()
            invariant
                old(self).wf(),
                self.wf(),
                self.spec_capacity() == old(self).spec_capacity(),
                avail == old(self).spec_capacity() - old(self)@.len(),
                i <= vals.len(),
                pushed <= i,
                pushed == if i as nat <= avail { i as nat } else { avail },
                self@ == old(self)@ + Self::fitting(avail, vals@.take(i as int)),
            decreases vals.len() - i,
        {
            let ok = self.try_push(vals[i]);
            proof {
                if ok {
                    assert(Self::fitting(avail, vals@.take(i + 1))
                        =~= Self::fitting(avail, vals@.take(i as int)).push(vals@[i as int]));
                } else {
                    assert(Self::fitting(avail, vals@.take(i + 1))
                        =~= Self::fitting(avail, vals@.take(i as int)));
                }
            }
            if ok {
                pushed = pushed + 1;
            }
            i = i + 1;
        }
        proof {
            assert(vals@.take(vals@.len() as int) =~= vals@);
        }
        pushed
    }
}

} // verus!

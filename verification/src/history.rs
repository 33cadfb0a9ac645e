use vstd::prelude::*;

verus! {

/// What a bounded window of capacity `cap` holds after the samples `xs`
/// are appended, oldest evicted first, to contents `w`: the concatenation
/// when it fits, otherwise its suffix of length `cap`.
pub open spec fn fed(w: Seq<i64>, xs: Seq<i64>, cap: nat) -> Seq<i64> {
    if w.len() + xs.len() <= cap {
        w + xs
    } else {
        (w + xs).skip((w.len() + xs.len() - cap) as int)
    }
}

/// Every value of `s` lies in `[-b, b]`.
pub open spec fn bounded(s: Seq<i64>, b: int) -> bool {
    forall|i: int| 0 <= i < s.len() ==> -b <= #[trigger] s[i] as int <= b
}

/// Law: a window never grows past its capacity, and once it has seen at
/// least `cap` samples it holds exactly the `cap` most recent ones.
pub proof fn lemma_window_keeps_most_recent(w: Seq<i64>, xs: Seq<i64>, cap: nat)
    requires
        w.len() <= cap,
    ensures
        fed(w, xs, cap).len() <= cap,
        w.len() + xs.len() >= cap ==> fed(w, xs, cap).len() == cap,
        w.len() + xs.len() >= cap ==> fed(w, xs, cap) == (w + xs).subrange(
            w.len() + xs.len() - cap,
            (w.len() + xs.len()) as int,
        ),
        xs.len() >= cap ==> fed(w, xs, cap) == xs.subrange(
            xs.len() - cap,
            xs.len() as int,
        ),
{
    if w.len() + xs.len() >= cap {
        assert(fed(w, xs, cap) =~= (w + xs).subrange(
            w.len() + xs.len() - cap,
            (w.len() + xs.len()) as int,
        ));
    }
    if xs.len() >= cap {
        assert(fed(w, xs, cap) =~= xs.subrange(xs.len() - cap, xs.len() as int));
    }
}

/// Feeding bounded samples into a window of bounded samples leaves every
/// stored sample bounded.
pub proof fn lemma_fed_bounded(w: Seq<i64>, xs: Seq<i64>, cap: nat, b: int)
    requires
        bounded(w, b),
        bounded(xs, b),
    ensures
        bounded(fed(w, xs, cap), b),
{
    let r = fed(w, xs, cap);
    assert forall|i: int| 0 <= i < r.len() implies -b <= #[trigger] r[i] as int <= b by {
        if w.len() + xs.len() <= cap {
            assert(r[i] == (w + xs)[i]);
        } else {
            assert(r[i] == (w + xs)[i + (w.len() + xs.len() - cap)]);
        }
    }
}

/// Rolling window of the most recent audio samples, capacity fixed at
/// construction. Only the capture side mutates it; the render side never
/// sees it. Its view is the stored samples, oldest first.
pub struct HistoryWindow {
    buf: Vec<i64>,
    capacity: usize,
}

impl View for HistoryWindow {
    type V = Seq<i64>;

    closed spec fn view(&self) -> Seq<i64> {
        self.buf@
    }
}

impl HistoryWindow {
    pub closed spec fn spec_capacity(&self) -> nat {
        self.capacity as nat
    }

    pub open spec fn wf(&self) -> bool {
        &&& self@.len() <= self.spec_capacity()
        &&& 1 <= self.spec_capacity()
    }

    pub fn new(capacity: usize) -> (w: Self)
        requires
            capacity >= 1,
        ensures
            w.wf(),
            w@ == Seq::<i64>::empty(),
            w.spec_capacity() == capacity,
    {
        HistoryWindow { buf: Vec::new(), capacity }
    }

    pub fn capacity(&self) -> (c: usize)
        ensures
            c == self.spec_capacity(),
    {
        self.capacity
    }

    pub fn len(&self) -> (n: usize)
        ensures
            n == self@.len(),
    {
        self.buf.len()
    }

    /// The stored samples, oldest first.
    pub fn contents(&self) -> (v: &Vec<i64>)
        ensures
            v@ == self@,
    {
        &self.buf
    }

    /// Appends one sample, evicting the oldest stored sample first when
    /// the window is at capacity.
    pub fn append(&mut self, s: i64)
        requires
            old(self).wf(),
        ensures
            final(self).wf(),
            final(self).spec_capacity() == old(self).spec_capacity(),
            old(self)@.len() < old(self).spec_capacity() ==> final(self)@ == old(self)@.push(s),
            old(self)@.len() == old(self).spec_capacity() ==> final(self)@ == old(
                self,
            )@.drop_first().push(s),
    {
        if self.buf.len() == self.capacity {
            let _evicted = self.buf.remove(0);
            proof {
                assert(old(self)@.remove(0) =~= old(self)@.drop_first());
            }
        }
        self.buf.push(s);
    }

    /// Appends a whole buffer of samples in order; afterwards the window
    /// holds `fed` of its old contents and the buffer.
    pub fn extend(&mut self, xs: &Vec<i64>)
        requires
            old(self).wf(),
        ensures
            final(self).wf(),
            final(self).spec_capacity() == old(self).spec_capacity(),
            final(self)@ == fed(old(self)@, xs@, old(self).spec_capacity()),
    {
        let ghost cap: nat = old(self).spec_capacity();
        let mut j: usize = 0;
        while j < xs.len()
            invariant
                self.wf(),
                self.spec_capacity() == cap,
                old(self).wf(),
                old(self).spec_capacity() == cap,
                j <= xs.len(),
                self@ == fed(old(self)@, xs@.take(j as int), cap),
            decreases xs.len() - j,
        {
            let ghost cur = self@;
            let x = xs[j];
            self.append(x);
            proof {
                if cur.len() < cap {
                    assert(fed(old(self)@, xs@.take(j + 1), cap) =~= cur.push(x));
                } else {
                    assert(fed(old(self)@, xs@.take(j + 1), cap) =~= cur.drop_first().push(x));
                }
            }
            j = j + 1;
        }
        proof {
            assert(xs@.take(xs@.len() as int) =~= xs@);
        }
    }
}

} // verus!

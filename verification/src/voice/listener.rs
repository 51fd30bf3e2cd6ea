//! The listener's rolling buffer: the most recent samples, up to a fixed
//! number.
use std::collections::VecDeque;
use vstd::prelude::*;

verus! {

/// The samples kept: at most `capacity` of the most recent ones (at least
/// one once any arrived, for a capacity of zero).
pub struct RingBuffer<T> {
    data: VecDeque<T>,
    capacity: usize,
}

/// The number of samples a buffer of `capacity` keeps.
pub open spec fn kept(capacity: nat) -> nat {
    if capacity == 0 {
        1
    } else {
        capacity
    }
}

/// The last `min(k, s.len())` items of `s`.
pub open spec fn latest<T>(s: Seq<T>, k: nat) -> Seq<T> {
    if s.len() <= k {
        s
    } else {
        s.subrange(s.len() - k, s.len() as int)
    }
}

/// Samples pushed in turn, run together.
pub open spec fn run_together<T>(xs: Seq<Seq<T>>) -> Seq<T>
    decreases xs.len(),
{
    if xs.len() == 0 {
        Seq::empty()
    } else {
        run_together(xs.drop_last()) + xs.last()
    }
}

/// What a buffer keeping `k` samples holds after each of `xs` was pushed
/// in turn onto `b`.
pub open spec fn after_pushes<T>(b: Seq<T>, xs: Seq<Seq<T>>, k: nat) -> Seq<T>
    decreases xs.len(),
{
    if xs.len() == 0 {
        b
    } else {
        latest(after_pushes(b, xs.drop_last(), k) + xs.last(), k)
    }
}

/// Keeping the latest `k` samples, then adding more and keeping the latest
/// `k` again, is keeping the latest `k` of everything.
pub proof fn law_latest_twice<T>(s: Seq<T>, t: Seq<T>, k: nat)
    ensures
        latest(latest(s, k) + t, k) == latest(s + t, k),
{
    if s.len() > k {
        let l = latest(s, k);
        assert(l.len() == k);
        if t.len() == 0 {
            assert(l + t =~= l);
            assert(s + t =~= s);
        } else {
            let a = (l + t).subrange(t.len() as int, (k + t.len()) as int);
            let b = (s + t).subrange(s.len() + t.len() - k, (s.len() + t.len()) as int);
            assert forall|i: int| 0 <= i < k implies a[i] == b[i] by {
                if i < k - t.len() {
                    assert(a[i] == l[t.len() + i]);
                    assert(l[t.len() + i] == s[s.len() - k + t.len() + i]);
                } else {
                    assert(a[i] == t[i - (k - t.len())]);
                }
            }
            assert(a =~= b);
        }
    }
}

/// A buffer that starts empty and is pushed `xs` in turn, with no clearing
/// between, holds the latest `k` samples of all that was pushed, in order.
pub proof fn law_pushes_keep_latest<T>(xs: Seq<Seq<T>>, k: nat)
    ensures
        after_pushes(Seq::<T>::empty(), xs, k) == latest(run_together(xs), k),
        after_pushes(Seq::<T>::empty(), xs, k).len() <= k,
    decreases xs.len(),
{
    if xs.len() > 0 {
        law_pushes_keep_latest(xs.drop_last(), k);
        law_latest_twice(run_together(xs.drop_last()), xs.last(), k);
    }
}

impl<T: Copy> RingBuffer<T> {
    pub closed spec fn view(&self) -> Seq<T> {
        self.data@
    }

    pub closed spec fn capacity(&self) -> nat {
        self.capacity as nat
    }

    pub closed spec fn wf(&self) -> bool {
        self.data@.len() <= kept(self.capacity as nat)
    }

    /// An empty buffer for `capacity_secs` seconds at `sample_rate`.
    pub fn new(capacity_secs: u32, sample_rate: u32) -> (res: RingBuffer<T>)
        requires
            capacity_secs * sample_rate <= usize::MAX,
        ensures
            res.wf(),
            res.view() == Seq::<T>::empty(),
            res.capacity() == capacity_secs * sample_rate,
    {
        RingBuffer { data: VecDeque::new(), capacity: capacity_secs as usize * sample_rate as usize }
    }

    /// Adds samples, dropping the oldest beyond the capacity.
    pub fn push(&mut self, samples: &[T])
        requires
            old(self).wf(),
        ensures
            final(self).wf(),
            final(self).capacity() == old(self).capacity(),
            final(self).view() == latest(old(self).view() + samples@, kept(old(self).capacity())),
    {
        let ghost k = kept(self.capacity as nat);
        let ghost start = self.data@;
        let mut i: usize = 0;
        while i < samples.len()
            invariant
                i <= samples.len(),
                k == kept(self.capacity as nat),
                self.capacity == old(self).capacity,
                start == old(self).data@,
                self.data@.len() <= k,
                self.data@ == latest(start + samples@.subrange(0, i as int), k),
            decreases samples.len() - i,
        {
            let ghost before = self.data@;
            let ghost all = start + samples@.subrange(0, i as int);
            let ghost all2 = start + samples@.subrange(0, i + 1);
            assert(all2 =~= all.push(samples@[i as int]));
            if self.data.len() >= self.capacity {
                self.data.pop_front();
            }
            self.data.push_back(samples[i]);
            assert(self.data@ =~= latest(all2, k));
            i = i + 1;
        }
        assert(samples@.subrange(0, samples.len() as int) =~= samples@);
    }

    /// The samples kept, oldest first.
    pub fn snapshot(&self) -> (res: Vec<T>)
        ensures
            res@ == self.view(),
    {
        let mut out: Vec<T> = Vec::new();
        let mut i: usize = 0;
        while i < self.data.len()
            invariant
                i <= self.data@.len(),
                out@ == self.data@.subrange(0, i as int),
            decreases self.data@.len() - i,
        {
            out.push(self.data[i]);
            assert(out@ =~= self.data@.subrange(0, i + 1));
            i = i + 1;
        }
        assert(self.data@.subrange(0, self.data@.len() as int) =~= self.data@);
        out
    }

    /// Drops every sample.
    pub fn clear(&mut self)
        requires
            old(self).wf(),
        ensures
            final(self).wf(),
            final(self).view() == Seq::<T>::empty(),
            final(self).capacity() == old(self).capacity(),
    {
        self.data.clear();
    }
}

} // verus!

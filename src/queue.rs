use vstd::prelude::*;

use std::collections::VecDeque;
use vstd::std_specs::iter::IteratorSpec;

verus! {

/// A first-in, first-out list that keeps at most `max` items: pushing onto
/// a full queue drops the oldest.
pub struct Queue<T> {
    inner: VecDeque<T>,
    max: usize,
}

/// `s` after pushing `x` onto a queue that keeps at most `max` items.
pub open spec fn pushed<T>(s: Seq<T>, x: T, max: nat) -> Seq<T> {
    if s.len() >= max {
        s.subrange(s.len() - max + 1, s.len() as int).push(x)
    } else {
        s.push(x)
    }
}

impl<T> Queue<T> {
    /// The items, oldest first.
    pub closed spec fn items(&self) -> Seq<T> {
        self.inner@
    }

    pub closed spec fn capacity(&self) -> nat {
        self.max as nat
    }

    pub closed spec fn wf(&self) -> bool {
        0 < self.max && self.inner@.len() <= self.max
    }

    /// An empty queue that keeps at most `max` items.
    pub fn with_capacity(max: usize) -> (r: Queue<T>)
        requires
            max > 0,
        ensures
            r.wf(),
            r.items() == Seq::<T>::empty(),
            r.capacity() == max,
    {
        Queue { inner: VecDeque::new(), max }
    }

    /// Appends `item`, dropping the oldest items while the queue is full.
    pub fn push(&mut self, item: T)
        requires
            old(self).wf(),
        ensures
            final(self).wf(),
            final(self).capacity() == old(self).capacity(),
            final(self).items() == pushed(old(self).items(), item, old(self).capacity()),
    {
        let ghost s = self.inner@;
        while self.inner.len() >= self.max
            invariant
                0 < self.max,
                self.max == old(self).max,
                s == old(self).inner@,
                self.inner@.len() <= s.len(),
                s.len() >= self.max ==> self.inner@ == s.subrange(s.len() - self.inner@.len(), s.len() as int),
                s.len() >= self.max ==> self.inner@.len() >= self.max - 1,
                s.len() < self.max ==> self.inner@ == s,
            decreases self.inner@.len(),
        {
            assert(s.len() >= self.max);
            let ghost before = self.inner@;
            let _ = self.inner.pop_front();
            assert(self.inner@ =~= before.subrange(1, before.len() as int));
            assert(self.inner@ =~= s.subrange(s.len() - self.inner@.len(), s.len() as int));
        }
        self.inner.push_back(item);
    }

    /// The items, oldest first.
    pub fn iter(&self) -> (r: std::collections::vec_deque::Iter<'_, T>)
        ensures
            r.remaining() == self.items().as_ref(),
    {
        self.inner.iter()
    }

    pub fn len(&self) -> (r: usize)
        ensures
            r == self.items().len(),
    {
        self.inner.len()
    }
}

} // verus!

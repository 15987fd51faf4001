//! A deque that maintains a maximum capacity by removing oldest
//! elements.  Pushing onto a full deque evicts exactly the single
//! oldest element and preserves the relative order of the rest.

use vstd::prelude::*;

verus! {

#[derive(Clone, Debug)]
pub struct BoundedVec<T> {
    pub items: std::collections::VecDeque<T>,
    pub max_size: usize,
}

impl<T> BoundedVec<T> {
    /// The retained elements, oldest first.
    pub open spec fn view(&self) -> Seq<T> {
        self.items@
    }

    /// The capacity bound is respected.  `new` establishes this and
    /// every method preserves it.
    pub open spec fn wf(&self) -> bool {
        self@.len() <= self.max_size
    }

    pub fn new(max_size: usize) -> (r: BoundedVec<T>)
        ensures
            r@ == Seq::<T>::empty(),
            r.max_size == max_size,
            r.wf(),
    {
        BoundedVec { items: std::collections::VecDeque::new(), max_size }
    }

    /// Appends `item`; if the deque then exceeds its bound, the single
    /// oldest element is dropped.
    pub fn push(&mut self, item: T)
        ensures
            final(self)@ == if old(self)@.len() + 1 > old(self).max_size {
                old(self)@.push(item).drop_first()
            } else {
                old(self)@.push(item)
            },
            final(self).max_size == old(self).max_size,
            old(self).wf() ==> final(self).wf(),
    {
        self.items.push_back(item);
        if self.items.len() > self.max_size {
            self.items.pop_front();
        }
    }

    pub fn clear(&mut self)
        ensures
            final(self)@ == Seq::<T>::empty(),
            final(self).max_size == old(self).max_size,
            final(self).wf(),
    {
        self.items.clear();
    }

    pub fn len(&self) -> (r: usize)
        ensures
            r == self@.len(),
    {
        self.items.len()
    }

    /// Lowers the bound to `max_size`, dropping oldest elements until
    /// the deque fits.
    pub fn set_max_size(&mut self, max_size: usize)
        ensures
            final(self).max_size == max_size,
            final(self)@ == old(self)@.skip(
                if old(self)@.len() > max_size {
                    old(self)@.len() - max_size
                } else {
                    0
                },
            ),
            final(self).wf(),
    {
        self.max_size = max_size;
        let ghost orig = self.items@;
        proof {
            assert(self.items@ =~= orig.skip(0));
        }
        while self.items.len() > max_size
            invariant
                self.max_size == max_size,
                self.items@.len() <= orig.len(),
                orig.len() > max_size ==> self.items@.len() >= max_size,
                orig.len() <= max_size ==> self.items@.len() == orig.len(),
                self.items@ == orig.skip(orig.len() - self.items@.len()),
            decreases self.items@.len(),
        {
            self.items.pop_front();
            proof {
                assert(self.items@ =~= orig.skip(orig.len() - self.items@.len()));
            }
        }
        proof {
            assert(self.items@ =~= orig.skip(
                if orig.len() > max_size {
                    orig.len() - max_size
                } else {
                    0
                },
            ));
        }
    }

    pub fn to_vec(&self) -> (r: Vec<T>)
        where T: Copy,
        ensures
            r@ == self@,
    {
        let mut r: Vec<T> = Vec::new();
        let mut i: usize = 0;
        while i < self.items.len()
            invariant
                i <= self.items@.len(),
                r@ == self.items@.take(i as int),
            decreases self.items@.len() - i,
        {
            r.push(self.items[i]);
            proof {
                assert(r@ =~= self.items@.take(i as int + 1));
            }
            i = i + 1;
        }
        proof {
            assert(r@ =~= self@);
        }
        r
    }
}

/// Pushing onto a history filled to its bound `n` keeps exactly the
/// latest `n` elements in their original relative order: the single
/// oldest is evicted, every other element keeps its place shifted by
/// one, and the new element is last.
pub proof fn lemma_push_evicts_oldest<T>(before: Seq<T>, after: Seq<T>, item: T, max_size: int)
    requires
        before.len() == max_size,
        max_size >= 1,
        after == before.push(item).drop_first(),
    ensures
        after.len() == max_size,
        forall|j: int| 0 <= j < max_size - 1 ==> after[j] == before[j + 1],
        after[max_size - 1] == item,
{
    assert forall|j: int| 0 <= j < max_size - 1 implies after[j] == before[j + 1] by {
        assert(after[j] == before.push(item)[j + 1]);
    }
}

} // verus!

//! The sliding window of gas price samples and its average.

use std::collections::VecDeque;
use vstd::prelude::*;

verus! {

/// The number of elements that a buffer made for `capacity` elements
/// holds at most: a buffer made for none holds the newest element only.
pub open spec fn window(capacity: usize) -> nat {
    if capacity == 0 {
        1
    } else {
        capacity as nat
    }
}

/// What a buffer made for `capacity` elements holds after `sample` was
/// pushed into it, from what it held before: the oldest element gives way
/// where the buffer was full.
pub open spec fn after_push<T>(before: Seq<T>, capacity: usize, sample: T) -> Seq<T> {
    if before.len() >= capacity && before.len() > 0 {
        before.drop_first().push(sample)
    } else {
        before.push(sample)
    }
}

/// The newest elements of all that were pushed, as many as a buffer made
/// for `capacity` elements holds.
pub open spec fn newest<T>(all: Seq<T>, capacity: usize) -> Seq<T> {
    if all.len() <= window(capacity) {
        all
    } else {
        all.subrange(all.len() - window(capacity), all.len() as int)
    }
}

/// The window slides: a buffer that holds the newest of the elements
/// pushed so far holds the newest of them after one more push.
pub proof fn law_window_slides<T>(all: Seq<T>, capacity: usize, sample: T)
    ensures
        after_push(newest(all, capacity), capacity, sample) == newest(all.push(sample), capacity),
        newest(all, capacity).len() <= window(capacity),
{
    let before = newest(all, capacity);
    let after = after_push(before, capacity, sample);
    assert(after =~= newest(all.push(sample), capacity));
}

/// A buffer that keeps the newest elements pushed into it, oldest first,
/// up to its capacity.
#[derive(Debug)]
pub struct SlidingWindowBuffer<T> {
    items: VecDeque<T>,
    limit: usize,
}

impl<T> View for SlidingWindowBuffer<T> {
    type V = Seq<T>;

    closed spec fn view(&self) -> Seq<T> {
        self.items@
    }
}

impl<T> SlidingWindowBuffer<T> {
    #[verifier::type_invariant]
    closed spec fn within_window(self) -> bool {
        self.items@.len() <= window(self.limit)
    }

    /// The capacity that the buffer was made with.
    pub closed spec fn limit(&self) -> usize {
        self.limit
    }

    /// Creates a new buffer with the specified capacity.
    pub fn new(capacity: usize) -> (buffer: Self)
        ensures
            buffer@ == Seq::<T>::empty(),
            buffer.limit() == capacity,
    {
        SlidingWindowBuffer { items: VecDeque::with_capacity(capacity), limit: capacity }
    }

    /// Pushes a new element into the buffer, evicting the oldest element if the buffer is full.
    ///
    /// Returns the evicted element, if any.
    pub fn push(&mut self, sample: T) -> (evicted: Option<T>)
        ensures
            final(self).limit() == old(self).limit(),
            old(self)@.len() <= window(old(self).limit()),
            final(self)@.len() <= window(old(self).limit()),
            final(self)@ == after_push(old(self)@, old(self).limit(), sample),
            evicted == if old(self)@.len() >= old(self).limit() && old(self)@.len() > 0 {
                Some(old(self)@[0])
            } else {
                None
            },
    {
        proof {
            use_type_invariant(&*self);
        }
        let mut items: VecDeque<T> = VecDeque::new();
        core::mem::swap(&mut self.items, &mut items);
        let evicted = if items.len() >= self.limit {
            items.pop_front()
        } else {
            None
        };
        items.push_back(sample);
        self.items = items;
        evicted
    }

    /// Removes the oldest element from the buffer.
    pub fn pop(&mut self) -> (oldest: Option<T>)
        ensures
            final(self).limit() == old(self).limit(),
            match oldest {
                Some(x) => old(self)@.len() > 0 && x == old(self)@[0] && final(self)@ == old(self)@.drop_first(),
                None => old(self)@.len() == 0 && final(self)@ == old(self)@,
            },
    {
        proof {
            use_type_invariant(&*self);
        }
        let mut items: VecDeque<T> = VecDeque::new();
        core::mem::swap(&mut self.items, &mut items);
        let oldest = items.pop_front();
        self.items = items;
        oldest
    }

    /// Returns the total number of elements in the buffer.
    pub fn len(&self) -> (n: usize)
        ensures
            n == self@.len(),
            n <= window(self.limit()),
    {
        proof {
            use_type_invariant(self);
        }
        self.items.len()
    }

    /// Returns `true` if the buffer is empty.
    pub fn is_empty(&self) -> (b: bool)
        ensures
            b == (self@.len() == 0),
    {
        self.items.len() == 0
    }

    /// Returns the total number of elements can be stored in the buffer.
    pub fn capacity(&self) -> (n: usize)
        ensures
            n == self.limit(),
    {
        self.limit
    }

    /// The element at position `i`, counting from the oldest.
    pub fn get(&self, i: usize) -> (r: Option<&T>)
        ensures
            match r {
                Some(x) => i < self@.len() && *x == self@[i as int],
                None => i >= self@.len(),
            },
    {
        if i < self.items.len() {
            Some(&self.items[i])
        } else {
            None
        }
    }

    /// Returns an iterator over the elements in the buffer from the oldest to the newest.
    pub fn iter(&self) -> (iter: Iter<'_, T>)
        ensures
            iter.remaining() == self@,
    {
        let iter = Iter { items: &self.items, position: 0 };
        proof {
            assert(self.items@.subrange(0, self.items@.len() as int) =~= self.items@);
        }
        iter
    }
}

/// A walk over the elements of a buffer, from the oldest to the newest.
#[derive(Debug)]
pub struct Iter<'a, T> {
    items: &'a VecDeque<T>,
    position: usize,
}

impl<'a, T> Iter<'a, T> {
    /// The elements that the walk has not handed out yet.
    pub closed spec fn remaining(&self) -> Seq<T> {
        if self.position <= self.items@.len() {
            self.items@.subrange(self.position as int, self.items@.len() as int)
        } else {
            Seq::empty()
        }
    }

    /// Hands out the next element, if there is one.
    pub fn next(&mut self) -> (r: Option<&'a T>)
        ensures
            match r {
                Some(x) => old(self).remaining().len() > 0 && *x == old(self).remaining()[0]
                    && final(self).remaining() == old(self).remaining().drop_first(),
                None => old(self).remaining().len() == 0 && final(self).remaining() == old(self).remaining(),
            },
    {
        if self.position < self.items.len() {
            let item = &self.items[self.position];
            proof {
                let s = self.items@;
                let p = self.position as int;
                assert(s.subrange(p + 1, s.len() as int) =~= s.subrange(p, s.len() as int).drop_first());
            }
            self.position = self.position + 1;
            Some(item)
        } else {
            None
        }
    }
}

} // verus!

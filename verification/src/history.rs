//! Fixed-capacity history buffer used for short in-memory time series.
use std::collections::vec_deque::Iter;
use std::collections::VecDeque;
use vstd::prelude::*;
use vstd::std_specs::iter::IteratorSpec;

verus! {

broadcast use vstd::std_specs::vecdeque::group_vec_dequeue_axioms;

/// What one `push` does to the contents: when the buffer already holds
/// `capacity` items (and that is more than none), the oldest item goes first.
pub open spec fn pushed<T>(items: Seq<T>, capacity: nat, item: T) -> Seq<T> {
    if items.len() == capacity && capacity > 0 {
        items.drop_first().push(item)
    } else {
        items.push(item)
    }
}

/// What pushing `new_items` one by one does to the contents.
pub open spec fn pushed_all<T>(items: Seq<T>, capacity: nat, new_items: Seq<T>) -> Seq<T>
    decreases new_items.len(),
{
    if new_items.len() == 0 {
        items
    } else {
        pushed_all(pushed(items, capacity, new_items[0]), capacity, new_items.drop_first())
    }
}

/// The newest `capacity` items of `all`, oldest first.
pub open spec fn latest<T>(all: Seq<T>, capacity: nat) -> Seq<T> {
    if all.len() <= capacity {
        all
    } else {
        all.skip(all.len() - capacity)
    }
}

/// Fixed-capacity history buffer used for short in-memory time series.
///
/// This type behaves like a sliding window:
/// - When the buffer reaches `capacity`, pushing a new item drops the oldest item.
/// - Iteration yields items from oldest to newest.
#[derive(Debug)]
pub struct HistoryBuffer<T> {
    capacity: usize,
    items: VecDeque<T>,
}

impl<T> View for HistoryBuffer<T> {
    type V = Seq<T>;

    /// The stored items, oldest first.
    closed spec fn view(&self) -> Seq<T> {
        self.items@
    }
}

impl<'a, T> IntoIterator for &'a HistoryBuffer<T> {
    type Item = &'a T;

    type IntoIter = Iter<'a, T>;

    /// Iterates over the items from oldest to newest.
    fn into_iter(self) -> (r: Iter<'a, T>)
        ensures
            r.remaining() == self@.map_values(|x: T| &x),
    {
        self.iter()
    }
}

impl<T> HistoryBuffer<T> {
    /// The capacity the buffer was created with.
    pub closed spec fn cap(&self) -> nat {
        self.capacity as nat
    }

    /// Creates a new history buffer with a fixed maximum number of items.
    pub fn new(capacity: usize) -> (r: Self)
        ensures
            r@ == Seq::<T>::empty(),
            r.cap() == capacity,
    {
        HistoryBuffer { capacity, items: VecDeque::new() }
    }

    /// Appends one sample to the history.
    ///
    /// If the buffer is full, the oldest sample is removed first.
    pub fn push(&mut self, item: T)
        ensures
            final(self)@ == pushed(old(self)@, old(self).cap(), item),
            final(self).cap() == old(self).cap(),
            final(self)@.len() > 0 && final(self)@.last() == item,
            old(self)@.len() == old(self).cap() && old(self).cap() > 0 ==> final(self)@.len()
                == old(self)@.len() && forall|i: int|
                0 <= i < old(self)@.len() - 1 ==> final(self)@[i] == old(self)@[i + 1],
            !(old(self)@.len() == old(self).cap() && old(self).cap() > 0) ==> final(self)@.len()
                == old(self)@.len() + 1 && forall|i: int|
                0 <= i < old(self)@.len() ==> final(self)@[i] == old(self)@[i],
    {
        if self.items.len() == self.capacity && self.items.len() > 0 {
            self.items.pop_front();
        }
        self.items.push_back(item);
        proof {
            if old(self)@.len() == old(self).cap() && old(self).cap() > 0 {
                assert(self.items@ =~= old(self)@.drop_first().push(item));
            }
        }
    }

    /// Returns the number of items currently stored in the history.
    pub fn len(&self) -> (r: usize)
        ensures
            r == self@.len(),
    {
        self.items.len()
    }

    /// Returns `true` if the history is empty.
    pub fn is_empty(&self) -> (r: bool)
        ensures
            r == (self@.len() == 0),
    {
        self.items.len() == 0
    }

    /// Returns the maximum number of items the history can hold.
    pub fn capacity(&self) -> (r: usize)
        ensures
            r == self.cap(),
    {
        self.capacity
    }

    /// Clears all items from the history, leaving it empty but retaining capacity.
    pub fn clear(&mut self)
        ensures
            final(self)@ == Seq::<T>::empty(),
            final(self).cap() == old(self).cap(),
    {
        self.items.clear();
    }

    /// Returns an iterator over the items from oldest to newest without consuming the buffer.
    pub fn iter(&self) -> (r: Iter<'_, T>)
        ensures
            r.remaining() == self@.map_values(|x: T| &x),
    {
        let r = self.items.iter();
        proof {
            assert(self@.as_ref() =~= self@.map_values(|x: T| &x));
        }
        r
    }

    /// Returns the item at position `index`, counted from the oldest.
    pub fn get(&self, index: usize) -> (r: Option<&T>)
        ensures
            r == (if index < self@.len() {
                Some(&self@[index as int])
            } else {
                None
            }),
    {
        if index < self.items.len() {
            Some(&self.items[index])
        } else {
            None
        }
    }

    /// Returns a reference to the oldest item in the history, or `None` if empty.
    pub fn front(&self) -> (r: Option<&T>)
        ensures
            r == (if self@.len() > 0 {
                Some(&self@[0])
            } else {
                None
            }),
    {
        if self.items.len() > 0 {
            Some(&self.items[0])
        } else {
            None
        }
    }

    /// Returns a reference to the newest item in the history, or `None` if empty.
    pub fn back(&self) -> (r: Option<&T>)
        ensures
            r == (if self@.len() > 0 {
                Some(&self@.last())
            } else {
                None
            }),
    {
        let n = self.items.len();
        if n > 0 {
            Some(&self.items[n - 1])
        } else {
            None
        }
    }

    /// Appends all `new_items`, oldest first; the oldest stored items are
    /// dropped as capacity requires.
    pub fn extend(&mut self, new_items: Vec<T>)
        ensures
            final(self)@ == pushed_all(old(self)@, old(self).cap(), new_items@),
            final(self).cap() == old(self).cap(),
    {
        for item in it: new_items
            invariant
                self@ == pushed_all(old(self)@, old(self).cap(), it.seq().take(it.index() as int)),
                self.cap() == old(self).cap(),
                it.seq() == new_items@,
        {
            proof {
                lemma_pushed_all_snoc(old(self)@, old(self).cap(), it.seq().take(it.index() as int), item);
                assert(it.seq().take(it.index() as int).push(item) =~= it.seq().take(it.index() + 1));
            }
            self.push(item);
        }
        proof {
            assert(new_items@.take(new_items@.len() as int) =~= new_items@);
        }
    }
}

proof fn lemma_pushed_all_snoc<T>(items: Seq<T>, capacity: nat, new_items: Seq<T>, item: T)
    ensures
        pushed_all(items, capacity, new_items.push(item)) == pushed(
            pushed_all(items, capacity, new_items),
            capacity,
            item,
        ),
    decreases new_items.len(),
{
    if new_items.len() == 0 {
        assert(new_items.push(item).drop_first() =~= Seq::<T>::empty());
        assert(new_items.push(item)[0] == item);
        assert(pushed_all(pushed(items, capacity, item), capacity, Seq::<T>::empty()) == pushed(
            items,
            capacity,
            item,
        ));
    } else {
        assert(new_items.push(item)[0] == new_items[0]);
        lemma_pushed_all_snoc(pushed(items, capacity, new_items[0]), capacity, new_items.drop_first(), item);
        assert(new_items.push(item).drop_first() =~= new_items.drop_first().push(item));
    }
}

/// Pushing onto a buffer that holds at most `capacity` items (`capacity > 0`)
/// never takes it beyond `capacity` items.
pub proof fn lemma_push_stays_within_capacity<T>(items: Seq<T>, capacity: nat, item: T)
    requires
        items.len() <= capacity,
        capacity > 0,
    ensures
        pushed(items, capacity, item).len() <= capacity,
{
}

/// Pushing a series of items onto a buffer that holds at most `capacity`
/// items (`capacity > 0`) leaves exactly the newest `capacity` items of the
/// old contents followed by the new items, oldest first.
pub proof fn lemma_keeps_latest<T>(items: Seq<T>, capacity: nat, new_items: Seq<T>)
    requires
        items.len() <= capacity,
        capacity > 0,
    ensures
        pushed_all(items, capacity, new_items) == latest(items + new_items, capacity),
    decreases new_items.len(),
{
    if new_items.len() == 0 {
        assert(items + new_items =~= items);
    } else {
        let next = pushed(items, capacity, new_items[0]);
        lemma_keeps_latest(next, capacity, new_items.drop_first());
        let all = items + new_items;
        let all2 = next + new_items.drop_first();
        if items.len() == capacity {
            assert(all2 =~= all.drop_first());
            assert(all.len() > capacity);
            assert(latest(all2, capacity) =~= latest(all, capacity));
        } else {
            assert(all2 =~= all);
        }
    }
}

} // verus!

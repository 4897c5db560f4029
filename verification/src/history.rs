use vstd::prelude::*;
use std::collections::VecDeque;

verus! {

broadcast use vstd::std_specs::vecdeque::group_vec_dequeue_axioms;

/// A history that keeps at most `capacity` of the latest entries, oldest first.
pub struct BoundedHistory<T> {
    entries: VecDeque<T>,
    capacity: usize,
}

/// The history after `entry` is recorded in `entries` with room for `capacity` entries: the
/// oldest entry gives way when the history is full.
pub open spec fn pushed_bounded<T>(entries: Seq<T>, capacity: nat, entry: T) -> Seq<T> {
    if entries.len() >= capacity && entries.len() > 0 {
        entries.drop_first().push(entry)
    } else {
        entries.push(entry)
    }
}

/// The most entries a history made with `capacity` holds: the capacity, and one when the
/// capacity is 0 (the newest entry is always kept).
pub open spec fn room(capacity: nat) -> nat {
    if capacity == 0 {
        1
    } else {
        capacity
    }
}

impl<T> View for BoundedHistory<T> {
    type V = Seq<T>;

    closed spec fn view(&self) -> Seq<T> {
        self.entries@
    }
}

impl<T> BoundedHistory<T> {
    /// The most entries the history keeps.
    pub closed spec fn spec_capacity(&self) -> nat {
        self.capacity as nat
    }

    /// The history holds no more entries than its room.
    pub open spec fn wf(&self) -> bool {
        self@.len() <= room(self.spec_capacity())
    }

    /// An empty history that keeps at most `capacity` entries.
    pub fn new(capacity: usize) -> (res: Self)
        ensures
            res.wf(),
            res@ == Seq::<T>::empty(),
            res.spec_capacity() == capacity,
    {
        BoundedHistory { entries: VecDeque::new(), capacity }
    }

    /// The number of entries held.
    pub fn len(&self) -> (res: usize)
        ensures
            res == self@.len(),
    {
        self.entries.len()
    }

    /// The most entries the history keeps.
    pub fn capacity(&self) -> (res: usize)
        ensures
            res == self.spec_capacity(),
    {
        self.capacity
    }

    /// The entries, oldest first.
    pub fn entries(&self) -> (res: &VecDeque<T>)
        ensures
            res@ == self@,
    {
        &self.entries
    }

    /// The latest entry, if any.
    pub fn latest(&self) -> (res: Option<&T>)
        ensures
            res == (if self@.len() > 0 {
                Some(&self@.last())
            } else {
                None
            }),
    {
        let n = self.entries.len();
        if n == 0 {
            None
        } else {
            Some(&self.entries[n - 1])
        }
    }

    /// Records `entry` as the latest, dropping the oldest entry when the history is full.
    pub fn push(&mut self, entry: T)
        requires
            old(self).wf(),
        ensures
            final(self).wf(),
            final(self).spec_capacity() == old(self).spec_capacity(),
            final(self)@ == pushed_bounded(old(self)@, old(self).spec_capacity(), entry),
    {
        if self.entries.len() >= self.capacity {
            let _ = self.entries.pop_front();
        }
        self.entries.push_back(entry);
        proof {
            assert(old(self).entries@.subrange(1, old(self).entries@.len() as int)
                =~= old(self).entries@.drop_first());
        }
    }
}

/// A bounded history never grows past its capacity, keeps the entry just recorded as its
/// latest, and keeps the entries before it in their order, dropping only the oldest.
pub proof fn law_bounded_push<T>(entries: Seq<T>, capacity: nat, entry: T)
    requires
        entries.len() <= room(capacity),
    ensures
        ({
            let after = pushed_bounded(entries, capacity, entry);
            &&& after.len() <= room(capacity)
            &&& after.len() == if entries.len() < capacity {
                entries.len() + 1
            } else {
                room(capacity)
            }
            &&& after.last() == entry
            &&& after.drop_last() =~= entries.skip(entries.len() - (after.len() - 1))
        }),
{
    let after = pushed_bounded(entries, capacity, entry);
    if entries.len() >= capacity && entries.len() > 0 {
        assert(after.drop_last() =~= entries.drop_first());
        assert(entries.skip(1) =~= entries.drop_first());
    } else {
        assert(after.drop_last() =~= entries);
        assert(entries.skip(0) =~= entries);
    }
}

} // verus!

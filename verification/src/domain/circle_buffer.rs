use vstd::prelude::*;

verus! {

/// A fixed-capacity ring buffer that keeps the most recent `capacity` items.
///
/// While it is not full, items are appended to the storage; once it is full, each
/// new item overwrites the oldest one. Its view is the sequence of kept items,
/// oldest first.
pub struct CircleBuffer<T> {
    position: usize,
    len: usize,
    capacity: usize,
    buffer: Vec<T>,
}

/// The sequence kept after pushing `item` onto a buffer holding `s` with room for `cap` items.
pub open spec fn pushed<T>(s: Seq<T>, cap: nat, item: T) -> Seq<T> {
    if s.len() < cap {
        s.push(item)
    } else {
        s.drop_first().push(item)
    }
}

/// The sequence kept after pushing each of `items`, in order, onto a buffer holding `s`.
pub open spec fn pushed_all<T>(s: Seq<T>, cap: nat, items: Seq<T>) -> Seq<T>
    decreases items.len(),
{
    if items.len() == 0 {
        s
    } else {
        pushed(pushed_all(s, cap, items.drop_last()), cap, items.last())
    }
}

/// The last `n` items of `s` (all of `s` when it is shorter).
pub open spec fn latest<T>(s: Seq<T>, n: nat) -> Seq<T> {
    if s.len() <= n {
        s
    } else {
        s.subrange(s.len() - n, s.len() as int)
    }
}

/// A buffer keeps exactly the latest items: pushing `items` one by one onto a buffer
/// that holds `s` leaves the last `cap` items of `s` followed by `items`.
pub proof fn lemma_keeps_latest<T>(s: Seq<T>, cap: nat, items: Seq<T>)
    requires
        cap > 0,
        s.len() <= cap,
    ensures
        pushed_all(s, cap, items) == latest(s + items, cap),
    decreases items.len(),
{
    if items.len() == 0 {
        assert(s + items =~= s);
    } else {
        let init = items.drop_last();
        lemma_keeps_latest(s, cap, init);
        let prev = latest(s + init, cap);
        assert((s + init).push(items.last()) =~= s + items);
        if (s + init).len() < cap {
            assert(prev.push(items.last()) =~= latest(s + items, cap));
        } else {
            assert(prev.drop_first().push(items.last()) =~= latest(s + items, cap));
        }
    }
}

impl<T> CircleBuffer<T> {
    /// The internal invariant that every operation keeps.
    pub closed spec fn well_formed(&self) -> bool {
        &&& self.buffer@.len() == self.len
        &&& self.len <= self.capacity
        &&& self.position <= self.len
        &&& self.len > 0 ==> self.position >= 1
        &&& self.len < self.capacity ==> self.position == self.len
    }

    /// The number of items the buffer keeps at most.
    pub closed spec fn capacity(&self) -> nat {
        self.capacity as nat
    }

    /// The physical storage, in the order in which slots are laid out.
    pub closed spec fn storage(&self) -> Seq<T> {
        self.buffer@
    }

    /// The slot after the one written last (the oldest item's slot once the buffer is full).
    pub closed spec fn write_position(&self) -> nat {
        self.position as nat
    }
}

impl<T> View for CircleBuffer<T> {
    type V = Seq<T>;

    /// The kept items, oldest first.
    closed spec fn view(&self) -> Seq<T> {
        self.buffer@.subrange(self.position as int, self.len as int) + self.buffer@.subrange(
            0,
            self.position as int,
        )
    }
}

impl<T> CircleBuffer<T> {
    /// Creates an empty buffer that keeps at most `capacity` items.
    pub fn with_capacity(capacity: usize) -> (b: CircleBuffer<T>)
        ensures
            b.well_formed(),
            b@ == Seq::<T>::empty(),
            b.capacity() == capacity,
            b.storage() == Seq::<T>::empty(),
            b.write_position() == 0,
    {
        let b = CircleBuffer { position: 0, len: 0, capacity: capacity, buffer: Vec::with_capacity(capacity) };
        assert(b@ =~= Seq::<T>::empty());
        b
    }

    /// Adds an item; once the buffer is full the oldest item is dropped.
    pub fn push(&mut self, item: T)
        requires
            old(self).well_formed(),
            old(self).capacity() > 0,
        ensures
            final(self).well_formed(),
            final(self)@ == pushed(old(self)@, old(self).capacity(), item),
            final(self).capacity() == old(self).capacity(),
            old(self)@.len() < old(self).capacity() ==> {
                &&& final(self).storage() == old(self).storage().push(item)
                &&& final(self).write_position() == old(self).write_position() + 1
            },
            old(self)@.len() >= old(self).capacity() ==> {
                let slot = if old(self).write_position() == old(self).capacity() {
                    0
                } else {
                    old(self).write_position()
                };
                &&& final(self).storage() == old(self).storage().update(slot as int, item)
                &&& final(self).write_position() == slot + 1
            },
    {
        let ghost old_storage = self.buffer@;
        let ghost old_view = self@;
        if self.len < self.capacity {
            self.buffer.push(item);
            self.len = self.len + 1;
            self.position = self.position + 1;
            assert(self@ =~= old_view.push(item));
        } else {
            if self.position == self.capacity {
                self.position = 0;
            }
            self.buffer.set(self.position, item);
            self.position = self.position + 1;
            assert(self@ =~= old_view.drop_first().push(item));
        }
    }
}

impl<T> CircleBuffer<T> {
    /// The physical storage, slot by slot.
    pub fn buffer(&self) -> (b: &Vec<T>)
        ensures
            b@ == self.storage(),
    {
        &self.buffer
    }

    /// Never more items are kept than the capacity allows.
    pub proof fn lemma_len_bounded(&self)
        requires
            self.well_formed(),
        ensures
            self@.len() <= self.capacity(),
            self.storage().len() == self@.len(),
    {
    }

    /// Pushes each of `items`, in order.
    pub fn push_all(&mut self, items: Vec<T>)
        requires
            old(self).well_formed(),
            old(self).capacity() > 0,
        ensures
            final(self).well_formed(),
            final(self).capacity() == old(self).capacity(),
            final(self)@ == pushed_all(old(self)@, old(self).capacity(), items@),
    {
        let ghost start = self@;
        let ghost all = items@;
        let mut i: usize = 0;
        for item in it: items
            invariant
                self.well_formed(),
                self.capacity() == old(self).capacity(),
                self.capacity() > 0,
                it.seq() == all,
                self@ == pushed_all(start, self.capacity(), all.take(it.index() as int)),
        {
            proof {
                assert(all.take(it.index() + 1).drop_last() =~= all.take(it.index() as int));
            }
            self.push(item);
        }
        assert(all.take(all.len() as int) =~= all);
    }

    /// An iterator over the kept items, oldest first.
    pub fn iter(&self) -> (it: CircleBufferIter<'_, T>)
        requires
            self.well_formed(),
        ensures
            it.well_formed(),
            it@ == self@,
    {
        CircleBufferIter {
            position: self.position,
            index: self.position,
            end: self.len,
            buffer: &self.buffer,
            circled: false,
        }
    }
}

/// Walks a [`CircleBuffer`] from its oldest item to its newest: first the slots from the
/// write position to the end of the storage, then, after wrapping round, the slots
/// before the write position.
pub struct CircleBufferIter<'a, T: 'a> {
    index: usize,
    position: usize,
    buffer: &'a Vec<T>,
    end: usize,
    circled: bool,
}

impl<'a, T> CircleBufferIter<'a, T> {
    /// The internal invariant that every step keeps.
    pub closed spec fn well_formed(&self) -> bool {
        &&& self.buffer@.len() == self.end
        &&& self.position <= self.end
        &&& self.end > 0 ==> self.position >= 1
        &&& !self.circled ==> self.index <= self.end
        &&& self.circled ==> self.index >= 1 && (self.index <= self.position || self.end == 0)
    }
}

impl<'a, T> View for CircleBufferIter<'a, T> {
    type V = Seq<T>;

    /// The items still to come, in the order in which they come.
    closed spec fn view(&self) -> Seq<T> {
        if !self.circled {
            self.buffer@.subrange(self.index as int, self.end as int) + self.buffer@.subrange(
                0,
                self.position as int,
            )
        } else if self.index <= self.position {
            self.buffer@.subrange(self.index as int, self.position as int)
        } else {
            Seq::<T>::empty()
        }
    }
}

impl<'a, T> CircleBufferIter<'a, T> {
    /// The next item, or `None` once every item has been handed out.
    pub fn next(&mut self) -> (r: Option<&'a T>)
        requires
            old(self).well_formed(),
        ensures
            final(self).well_formed(),
            old(self)@.len() == 0 ==> r is None && final(self)@ == old(self)@,
            old(self)@.len() > 0 ==> r == Some(&old(self)@[0]) && final(self)@ == old(
                self,
            )@.drop_first(),
    {
        let ghost rem = self@;
        if self.index == self.end && !self.circled {
            self.circled = true;
            self.index = 1;
            if 0 < self.buffer.len() {
                assert(self@ =~= rem.drop_first());
                return Some(&self.buffer[0]);
            } else {
                assert(self@ =~= rem);
                return None;
            }
        }
        if self.index == self.position && self.circled {
            return None;
        }
        if self.index < self.buffer.len() {
            let current = &self.buffer[self.index];
            self.index = self.index + 1;
            assert(self@ =~= rem.drop_first());
            Some(current)
        } else {
            None
        }
    }
}

} // verus!

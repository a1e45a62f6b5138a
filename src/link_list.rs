//! A double-ended queue stored in a growable ring of slots.
//!
//! Elements occupy `len` consecutive slots starting at `head`, wrapping around
//! the end of the slot table. Pushing and popping at either end is O(1)
//! (amortized when the table grows).
use vstd::prelude::*;

verus! {

/// Position `i` slots after `head` in a ring of `cap` slots, for `0 <= head, i < cap`.
pub open spec fn ring_index(head: int, i: int, cap: int) -> int {
    if head + i < cap {
        head + i
    } else {
        head + i - cap
    }
}

/// Where a cursor on a list of `len` elements goes from `pos` when it moves forward.
pub open spec fn next_position(pos: Option<usize>, len: nat) -> Option<usize> {
    match pos {
        Some(i) => if i + 1 < len {
            Some((i + 1) as usize)
        } else {
            None
        },
        None => if len > 0 {
            Some(0usize)
        } else {
            None
        },
    }
}

/// Where a cursor on a list of `len` elements goes from `pos` when it moves backward.
pub open spec fn prev_position(pos: Option<usize>, len: nat) -> Option<usize> {
    match pos {
        Some(i) => if i > 0 {
            Some((i - 1) as usize)
        } else {
            None
        },
        None => if len > 0 {
            Some((len - 1) as usize)
        } else {
            None
        },
    }
}

/// Double-ended queue with O(1) push and pop at both ends.
pub struct LinkedList<T> {
    slots: Vec<Option<T>>,
    head: usize,
    len: usize,
}

impl<T> LinkedList<T> {
    /// Number of slots in the table.
    pub closed spec fn cap(&self) -> int {
        self.slots@.len() as int
    }

    /// Slot that holds the element at logical position `i`.
    #[verifier::inline]
    spec fn slot_of(&self, i: int) -> int {
        ring_index(self.head as int, i, self.slots@.len() as int)
    }

    /// The internal invariant: the `len` slots from `head` onwards (wrapping) are occupied.
    pub closed spec fn well_formed(&self) -> bool {
        &&& self.len <= self.cap()
        &&& (self.cap() == 0 ==> self.head == 0)
        &&& (self.cap() > 0 ==> self.head < self.cap())
        &&& forall|i: int| 0 <= i < self.len ==> (#[trigger] self.slots@[self.slot_of(i)]) is Some
    }

    /// The elements from front to back.
    pub closed spec fn view(&self) -> Seq<T> {
        Seq::new(self.len as nat, |i: int| self.slots@[self.slot_of(i)]->Some_0)
    }

    /// Creates an empty list.
    pub fn new() -> (r: Self)
        ensures
            r.well_formed(),
            r@ == Seq::<T>::empty(),
    {
        let r = LinkedList { slots: Vec::new(), head: 0, len: 0 };
        assert(r@ =~= Seq::<T>::empty());
        r
    }

    /// Makes room for one more element, keeping the elements and their order.
    fn grow(&mut self)
        requires
            old(self).well_formed(),
            old(self)@.len() < usize::MAX,
        ensures
            final(self).well_formed(),
            final(self)@ == old(self)@,
            final(self)@.len() < final(self).cap(),
    {
        if self.len < self.slots.len() {
            return;
        }
        let cap = self.slots.len();
        let new_cap: usize = if cap == 0 {
            4
        } else if cap <= usize::MAX / 2 {
            cap * 2
        } else {
            usize::MAX
        };
        let ghost orig = *self;
        let ghost before = self.slots@;
        let ghost view_before = self@;
        let ghost head = self.head as int;
        let mut table = self.slots.split_off(self.head);
        table.append(&mut self.slots);
        let ghost rotated = table@;
        assert(rotated =~= before.subrange(head, cap as int) + before.subrange(0, head));
        while table.len() < new_cap
            invariant
                cap <= table@.len() <= new_cap,
                table@.subrange(0, cap as int) == rotated,
            decreases new_cap - table@.len(),
        {
            table.push(None);
            assert(table@.subrange(0, cap as int) =~= rotated);
        }
        self.slots = table;
        self.head = 0;
        assert forall|i: int| 0 <= i < self.len implies self.slots@[self.slot_of(i)] == before[
            if head + i < cap { head + i } else { head + i - cap }]
            && (#[trigger] self.slots@[self.slot_of(i)]) is Some by {
            assert(self.slots@[i] == rotated[i]);
            assert(orig.slots@[orig.slot_of(i)] is Some);
        }
        assert(self@ =~= view_before);
    }

    /// Slot index of logical position `i`, computed without overflow.
    fn slot_index(&self, i: usize) -> (r: usize)
        requires
            self.well_formed(),
            i < self.cap(),
        ensures
            r == self.slot_of(i as int),
            r < self.cap(),
    {
        let cap = self.slots.len();
        if self.head < cap - i {
            self.head + i
        } else {
            self.head - (cap - i)
        }
    }

    /// Inserts `elem` before the first element.
    pub fn push_front(&mut self, elem: T)
        requires
            old(self).well_formed(),
            old(self)@.len() < usize::MAX,
        ensures
            final(self).well_formed(),
            final(self)@ == seq![elem] + old(self)@,
    {
        self.grow();
        let ghost mid = *self;
        let cap = self.slots.len();
        let new_head = if self.head == 0 {
            cap - 1
        } else {
            self.head - 1
        };
        self.slots.set(new_head, Some(elem));
        self.head = new_head;
        self.len = self.len + 1;
        assert forall|i: int| 1 <= i < self.len implies self.slot_of(i) == mid.slot_of(i - 1)
            && self.slots@[self.slot_of(i)] == mid.slots@[mid.slot_of(i - 1)] by {}
        assert(self@ =~= seq![elem] + mid@);
    }

    /// Inserts `elem` after the last element.
    pub fn push_back(&mut self, elem: T)
        requires
            old(self).well_formed(),
            old(self)@.len() < usize::MAX,
        ensures
            final(self).well_formed(),
            final(self)@ == old(self)@.push(elem),
    {
        self.grow();
        let ghost mid = *self;
        let k = self.slot_index(self.len);
        self.slots.set(k, Some(elem));
        self.len = self.len + 1;
        assert forall|i: int| 0 <= i < self.len implies (#[trigger] self.slots@[self.slot_of(i)]) is Some
            && (i < mid.len ==> self.slots@[self.slot_of(i)] == mid.slots@[mid.slot_of(i)]) by {
            if i < mid.len {
                assert(mid.slots@[mid.slot_of(i)] is Some);
            }
        }
        assert(self@ =~= mid@.push(elem));
    }

    /// Removes and returns the first element, or `None` when empty.
    pub fn pop_front(&mut self) -> (r: Option<T>)
        requires
            old(self).well_formed(),
        ensures
            final(self).well_formed(),
            old(self)@.len() == 0 ==> r is None && final(self)@ == old(self)@,
            old(self)@.len() > 0 ==> r == Some(old(self)@[0]) && final(self)@ == old(
                self,
            )@.drop_first(),
    {
        if self.len == 0 {
            return None;
        }
        let ghost orig = *self;
        let cap = self.slots.len();
        let k = self.head;
        let r = self.slots[k].take();
        assert(orig.slots@[orig.slot_of(0)] is Some);
        self.head = if k + 1 == cap {
            0
        } else {
            k + 1
        };
        self.len = self.len - 1;
        assert forall|i: int| 0 <= i < self.len implies self.slot_of(i) == orig.slot_of(i + 1)
            && self.slots@[self.slot_of(i)] == orig.slots@[orig.slot_of(i + 1)] by {
            assert(orig.slots@[orig.slot_of(i + 1)] is Some);
        }
        assert(self@ =~= orig@.drop_first());
        r
    }

    /// Removes and returns the last element, or `None` when empty.
    pub fn pop_back(&mut self) -> (r: Option<T>)
        requires
            old(self).well_formed(),
        ensures
            final(self).well_formed(),
            old(self)@.len() == 0 ==> r is None && final(self)@ == old(self)@,
            old(self)@.len() > 0 ==> r == Some(old(self)@.last()) && final(self)@ == old(
                self,
            )@.drop_last(),
    {
        if self.len == 0 {
            return None;
        }
        let ghost orig = *self;
        let k = self.slot_index(self.len - 1);
        let r = self.slots[k].take();
        assert(orig.slots@[orig.slot_of(self.len - 1)] is Some);
        self.len = self.len - 1;
        assert forall|i: int| 0 <= i < self.len implies self.slot_of(i) == orig.slot_of(i)
            && self.slots@[self.slot_of(i)] == orig.slots@[orig.slot_of(i)]
            && (#[trigger] self.slots@[self.slot_of(i)]) is Some by {
            assert(orig.slots@[orig.slot_of(i)] is Some);
        }
        assert(self@ =~= orig@.drop_last());
        r
    }

    /// The element at logical position `i`.
    fn get(&self, i: usize) -> (r: &T)
        requires
            self.well_formed(),
            i < self@.len(),
        ensures
            *r == self@[i as int],
    {
        let k = self.slot_index(i);
        assert(self.slots@[self.slot_of(i as int)] is Some);
        self.slots[k].as_ref().unwrap()
    }

    /// The element at logical position `i`, for writing in place.
    fn get_mut(&mut self, i: usize) -> (r: &mut T)
        requires
            old(self).well_formed(),
            i < old(self)@.len(),
        ensures
            *r == old(self)@[i as int],
            final(self).well_formed(),
            final(self)@ == old(self)@.update(i as int, *final(r)),
    {
        let k = self.slot_index(i);
        let ghost orig = *self;
        assert(self.slots@[self.slot_of(i as int)] is Some);
        let r = self.slots[k].as_mut().unwrap();
        proof {
            assert forall|j: int| 0 <= j < orig.len && j != i implies #[trigger] orig.slot_of(j)
                != k by {}
        }
        r
    }

    /// The first element, if any.
    pub fn front(&self) -> (r: Option<&T>)
        requires
            self.well_formed(),
        ensures
            r == (if self@.len() == 0 { None } else { Some(&self@[0]) }),
    {
        if self.len == 0 {
            None
        } else {
            Some(self.get(0))
        }
    }

    /// The last element, if any.
    pub fn back(&self) -> (r: Option<&T>)
        requires
            self.well_formed(),
        ensures
            r == (if self@.len() == 0 { None } else { Some(&self@.last()) }),
    {
        if self.len == 0 {
            None
        } else {
            Some(self.get(self.len - 1))
        }
    }

    /// The first element, for writing in place.
    pub fn front_mut(&mut self) -> (r: Option<&mut T>)
        requires
            old(self).well_formed(),
        ensures
            final(self).well_formed(),
            old(self)@.len() == 0 <==> r is None,
            old(self)@.len() == 0 ==> final(self)@ == old(self)@,
            old(self)@.len() > 0 ==> *r->Some_0 == old(self)@[0] && final(self)@ == old(
                self,
            )@.update(0, *final(r->Some_0)),
    {
        if self.len == 0 {
            None
        } else {
            Some(self.get_mut(0))
        }
    }

    /// The last element, for writing in place.
    pub fn back_mut(&mut self) -> (r: Option<&mut T>)
        requires
            old(self).well_formed(),
        ensures
            final(self).well_formed(),
            old(self)@.len() == 0 <==> r is None,
            old(self)@.len() == 0 ==> final(self)@ == old(self)@,
            old(self)@.len() > 0 ==> *r->Some_0 == old(self)@.last() && final(self)@ == old(
                self,
            )@.update(old(self)@.len() - 1, *final(r->Some_0)),
    {
        if self.len == 0 {
            None
        } else {
            let last = self.len - 1;
            Some(self.get_mut(last))
        }
    }

    /// Number of elements.
    pub fn len(&self) -> (r: usize)
        requires
            self.well_formed(),
        ensures
            r == self@.len(),
    {
        self.len
    }

    /// Whether the list holds no element.
    pub fn is_empty(&self) -> (r: bool)
        requires
            self.well_formed(),
        ensures
            r == (self@.len() == 0),
    {
        self.len == 0
    }

    /// Removes every element, front first.
    pub fn clear(&mut self)
        requires
            old(self).well_formed(),
        ensures
            final(self).well_formed(),
            final(self)@ == Seq::<T>::empty(),
    {
        while self.len > 0
            invariant
                self.well_formed(),
            decreases self@.len(),
        {
            self.pop_front();
        }
        assert(self@ =~= Seq::<T>::empty());
    }

    /// A cursor at the ghost position of this list.
    pub fn cursor_mut(&mut self) -> (r: CursorMut<'_, T>)
        requires
            old(self).well_formed(),
        ensures
            r.well_formed(),
            *r.list == *old(self),
            r.index is None,
            *final(self) == *final(r.list),
    {
        CursorMut { list: self, index: None }
    }

    /// Iterates over the elements by mutable reference, from either end.
    pub fn iter_mut(&mut self) -> (r: IterMut<'_, T>)
        requires
            old(self).well_formed(),
        ensures
            r.well_formed(),
            *r.list == *old(self),
            r.front == 0,
            r.back == old(self)@.len(),
            *final(self) == *final(r.list),
    {
        let len = self.len;
        IterMut { list: self, front: 0, back: len }
    }

    /// Turns the list into an iterator that takes its elements out.
    pub fn into_iter(self) -> (r: IntoIter<T>)
        requires
            self.well_formed(),
        ensures
            r.list == self,
    {
        IntoIter { list: self }
    }

    /// Appends `items` at the back, in order.
    pub fn extend(&mut self, items: Vec<T>)
        requires
            old(self).well_formed(),
            old(self)@.len() + items@.len() < usize::MAX,
        ensures
            final(self).well_formed(),
            final(self)@ == old(self)@ + items@,
    {
        let ghost start = self@;
        let ghost all = items@;
        let mut rest = items;
        while rest.len() > 0
            invariant
                self.well_formed(),
                rest@.len() <= all.len(),
                rest@ == all.subrange(all.len() - rest@.len(), all.len() as int),
                self@ == start + all.subrange(0, all.len() - rest@.len()),
                start.len() + all.len() < usize::MAX,
            decreases rest@.len(),
        {
            let ghost n = rest@.len();
            assert(rest@[0] == all[all.len() - n]);
            assert(self@.len() == start.len() + all.len() - n);
            let item = rest.remove(0);
            assert(item == all[all.len() - n]);
            self.push_back(item);
            assert(all.subrange(0, all.len() - n + 1) =~= all.subrange(0, all.len() - n).push(item));
            assert(rest@ =~= all.subrange(all.len() - rest@.len(), all.len() as int));
        }
        assert(all.subrange(0, all.len() as int) =~= all);
    }

    /// A list holding `items`, in order.
    pub fn from_iter(items: Vec<T>) -> (r: Self)
        requires
            items@.len() < usize::MAX,
        ensures
            r.well_formed(),
            r@ == items@,
    {
        let mut list = Self::new();
        list.extend(items);
        assert(Seq::<T>::empty() + items@ =~= items@);
        list
    }

    /// Iterates over the elements by shared reference, from either end.
    pub fn iter(&self) -> (r: Iter<'_, T>)
        requires
            self.well_formed(),
        ensures
            r.list == self,
            r.front == 0,
            r.back == self@.len(),
    {
        Iter { list: self, front: 0, back: self.len }
    }
}

/// Shared iteration over a list: yields the positions `front..back`, from either end.
pub struct Iter<'a, T> {
    pub list: &'a LinkedList<T>,
    pub front: usize,
    pub back: usize,
}

impl<'a, T> Iter<'a, T> {
    /// The elements not yet yielded, in order.
    pub open spec fn remaining(&self) -> Seq<T> {
        self.list@.subrange(self.front as int, self.back as int)
    }

    pub open spec fn well_formed(&self) -> bool {
        self.list.well_formed() && self.front <= self.back <= self.list@.len()
    }

    /// Yields the next element from the front.
    pub fn next(&mut self) -> (r: Option<&'a T>)
        requires
            old(self).well_formed(),
        ensures
            final(self).well_formed(),
            final(self).list == old(self).list,
            old(self).remaining().len() == 0 ==> r is None && final(self).remaining() == old(self).remaining(),
            old(self).remaining().len() > 0 ==> r == Some(&old(self).remaining()[0])
                && final(self).remaining() == old(self).remaining().drop_first(),
    {
        if self.front < self.back {
            let item = self.list.get(self.front);
            self.front = self.front + 1;
            Some(item)
        } else {
            None
        }
    }

    /// Yields the next element from the back.
    pub fn next_back(&mut self) -> (r: Option<&'a T>)
        requires
            old(self).well_formed(),
        ensures
            final(self).well_formed(),
            final(self).list == old(self).list,
            old(self).remaining().len() == 0 ==> r is None && final(self).remaining() == old(self).remaining(),
            old(self).remaining().len() > 0 ==> r == Some(&old(self).remaining().last())
                && final(self).remaining() == old(self).remaining().drop_last(),
    {
        if self.front < self.back {
            self.back = self.back - 1;
            Some(self.list.get(self.back))
        } else {
            None
        }
    }

    /// Number of elements not yet yielded.
    pub fn len(&self) -> (r: usize)
        requires
            self.well_formed(),
        ensures
            r == self.remaining().len(),
    {
        self.back - self.front
    }
}

/// A position in a list that can move in both directions and edit the element under it.
///
/// Besides the positions of the elements there is one "ghost" position, between the last
/// element and the first, where `index` is `None`; moving past either end parks the cursor
/// there, and one more move in the same direction enters at the opposite end.
pub struct CursorMut<'a, T> {
    pub list: &'a mut LinkedList<T>,
    pub index: Option<usize>,
}

impl<'a, T> CursorMut<'a, T> {
    /// The elements of the list under the cursor.
    pub open spec fn items(&self) -> Seq<T> {
        self.list@
    }

    pub open spec fn well_formed(&self) -> bool {
        &&& self.list.well_formed()
        &&& (self.index matches Some(i) ==> i < self.list@.len())
    }

    /// Moves to the next element; from the last element to the ghost position; from the
    /// ghost position to the first element.
    pub fn move_next(&mut self)
        requires
            old(self).well_formed(),
        ensures
            final(self).well_formed(),
            final(self).list == old(self).list,
            final(self).index == next_position(old(self).index, old(self).list@.len()),
    {
        let len = self.list.len();
        self.index = match self.index {
            Some(i) => if i + 1 < len {
                Some(i + 1)
            } else {
                None
            },
            None => if len > 0 {
                Some(0)
            } else {
                None
            },
        };
    }

    /// The element under the cursor, for writing in place; `None` at the ghost position.
    pub fn current(&mut self) -> (r: Option<&mut T>)
        requires
            old(self).well_formed(),
        ensures
            final(self).well_formed(),
            final(self).index == old(self).index,
            *final(final(self).list) == *final(old(self).list),
            old(self).index is None ==> r is None && *final(self).list == *old(self).list,
            old(self).index matches Some(i) ==> r is Some && *r->Some_0 == old(self).list@[i as int]
                && final(self).list@ == old(self).list@.update(i as int, *final(r->Some_0)),
    {
        match self.index {
            Some(i) => Some(self.list.get_mut(i)),
            None => None,
        }
    }
    /// Moves to the previous element; from the first element to the ghost position; from the
    /// ghost position to the last element.
    pub fn move_prev(&mut self)
        requires
            old(self).well_formed(),
        ensures
            final(self).well_formed(),
            final(self).list == old(self).list,
            final(self).index == prev_position(old(self).index, old(self).list@.len()),
    {
        let len = self.list.len();
        self.index = match self.index {
            Some(i) => if i > 0 {
                Some(i - 1)
            } else {
                None
            },
            None => if len > 0 {
                Some(len - 1)
            } else {
                None
            },
        };
    }

    /// Position of the element under the cursor; `None` at the ghost position.
    pub fn index(&self) -> (r: Option<usize>)
        ensures
            r == self.index,
    {
        self.index
    }

    /// The element after the cursor, without moving; `None` at the ghost position or on the
    /// last element.
    pub fn peek_next(&self) -> (r: Option<&T>)
        requires
            self.well_formed(),
        ensures
            r == (match self.index {
                Some(i) => if i + 1 < self.items().len() {
                    Some(&self.items()[i + 1])
                } else {
                    None
                },
                None => None,
            }),
    {
        match self.index {
            Some(i) => if i + 1 < self.list.len() {
                Some(self.list.get(i + 1))
            } else {
                None
            },
            None => None,
        }
    }

    /// The element before the cursor, without moving; `None` at the ghost position or on the
    /// first element.
    pub fn peek_prev(&self) -> (r: Option<&T>)
        requires
            self.well_formed(),
        ensures
            r == (match self.index {
                Some(i) => if i > 0 {
                    Some(&self.items()[i - 1])
                } else {
                    None
                },
                None => None,
            }),
    {
        match self.index {
            Some(i) => if i > 0 {
                Some(self.list.get(i - 1))
            } else {
                None
            },
            None => None,
        }
    }
}

/// Iteration over a list that can edit the elements in place. Each element handed out is
/// borrowed from the iterator until the next call.
pub struct IterMut<'a, T> {
    pub list: &'a mut LinkedList<T>,
    pub front: usize,
    pub back: usize,
}

impl<'a, T> IterMut<'a, T> {
    pub open spec fn well_formed(&self) -> bool {
        self.list.well_formed() && self.front <= self.back <= self.list@.len()
    }

    /// The elements not yet yielded, in order.
    pub open spec fn remaining(&self) -> Seq<T> {
        self.list@.subrange(self.front as int, self.back as int)
    }

    /// Yields the next element from the front.
    pub fn next(&mut self) -> (r: Option<&mut T>)
        requires
            old(self).well_formed(),
        ensures
            final(self).well_formed(),
            *final(final(self).list) == *final(old(self).list),
            final(self).back == old(self).back,
            old(self).front == old(self).back ==> r is None && final(self).front == old(self).front
                && *final(self).list == *old(self).list,
            old(self).front < old(self).back ==> r is Some && final(self).front == old(self).front + 1
                && *r->Some_0 == old(self).list@[old(self).front as int]
                && final(self).list@ == old(self).list@.update(old(self).front as int, *final(r->Some_0)),
    {
        if self.front < self.back {
            let i = self.front;
            self.front = i + 1;
            Some(self.list.get_mut(i))
        } else {
            None
        }
    }

    /// Yields the next element from the back.
    pub fn next_back(&mut self) -> (r: Option<&mut T>)
        requires
            old(self).well_formed(),
        ensures
            final(self).well_formed(),
            *final(final(self).list) == *final(old(self).list),
            final(self).front == old(self).front,
            old(self).front == old(self).back ==> r is None && final(self).back == old(self).back
                && *final(self).list == *old(self).list,
            old(self).front < old(self).back ==> r is Some && final(self).back == old(self).back - 1
                && *r->Some_0 == old(self).list@[old(self).back - 1]
                && final(self).list@ == old(self).list@.update(old(self).back - 1, *final(r->Some_0)),
    {
        if self.front < self.back {
            self.back = self.back - 1;
            let i = self.back;
            Some(self.list.get_mut(i))
        } else {
            None
        }
    }

    /// Number of elements not yet yielded.
    pub fn len(&self) -> (r: usize)
        requires
            self.well_formed(),
        ensures
            r == self.remaining().len(),
    {
        self.back - self.front
    }
}

/// Iteration that takes the elements out of the list, from either end.
pub struct IntoIter<T> {
    pub list: LinkedList<T>,
}

impl<T> IntoIter<T> {
    /// Takes the next element from the front.
    pub fn next(&mut self) -> (r: Option<T>)
        requires
            old(self).list.well_formed(),
        ensures
            final(self).list.well_formed(),
            old(self).list@.len() == 0 ==> r is None && final(self).list@ == old(self).list@,
            old(self).list@.len() > 0 ==> r == Some(old(self).list@[0]) && final(self).list@ == old(
                self,
            ).list@.drop_first(),
    {
        self.list.pop_front()
    }

    /// Takes the next element from the back.
    pub fn next_back(&mut self) -> (r: Option<T>)
        requires
            old(self).list.well_formed(),
        ensures
            final(self).list.well_formed(),
            old(self).list@.len() == 0 ==> r is None && final(self).list@ == old(self).list@,
            old(self).list@.len() > 0 ==> r == Some(old(self).list@.last()) && final(self).list@
                == old(self).list@.drop_last(),
    {
        self.list.pop_back()
    }

    /// Number of elements not yet taken.
    pub fn len(&self) -> (r: usize)
        requires
            self.list.well_formed(),
        ensures
            r == self.list@.len(),
    {
        self.list.len()
    }
}

impl<T> Default for LinkedList<T> {
    /// An empty list.
    fn default() -> (r: Self)
        ensures
            r.well_formed(),
            r@ == Seq::<T>::empty(),
    {
        Self::new()
    }
}

} // verus!

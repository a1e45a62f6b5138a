//! What holds of every sequence of operations on a list, and of a cursor walking it.
//!
//! Each operation is modelled by the change that its method's contract states on the
//! list's view (`LinkedList::push_front` and the others).
use vstd::prelude::*;
use crate::link_list::next_position;

verus! {

/// One operation at one end of a list.
pub enum DequeOp<T> {
    PushFront(T),
    PushBack(T),
    PopFront,
    PopBack,
}

/// The elements after `op`, as the methods' contracts state it.
pub open spec fn after_op<T>(s: Seq<T>, op: DequeOp<T>) -> Seq<T> {
    match op {
        DequeOp::PushFront(x) => seq![x] + s,
        DequeOp::PushBack(x) => s.push(x),
        DequeOp::PopFront => if s.len() == 0 {
            s
        } else {
            s.drop_first()
        },
        DequeOp::PopBack => if s.len() == 0 {
            s
        } else {
            s.drop_last()
        },
    }
}

/// What `op` hands back: the removed element, or nothing.
pub open spec fn popped<T>(s: Seq<T>, op: DequeOp<T>) -> Seq<T> {
    match op {
        DequeOp::PopFront => if s.len() == 0 {
            Seq::empty()
        } else {
            seq![s[0]]
        },
        DequeOp::PopBack => if s.len() == 0 {
            Seq::empty()
        } else {
            seq![s.last()]
        },
        _ => Seq::empty(),
    }
}

/// The elements after a run of operations.
pub open spec fn after_ops<T>(s: Seq<T>, ops: Seq<DequeOp<T>>) -> Seq<T>
    decreases ops.len(),
{
    if ops.len() == 0 {
        s
    } else {
        after_ops(after_op(s, ops[0]), ops.drop_first())
    }
}

/// Everything a run of operations hands back, in order.
pub open spec fn popped_all<T>(s: Seq<T>, ops: Seq<DequeOp<T>>) -> Seq<T>
    decreases ops.len(),
{
    if ops.len() == 0 {
        Seq::empty()
    } else {
        popped(s, ops[0]) + popped_all(after_op(s, ops[0]), ops.drop_first())
    }
}

pub open spec fn is_push<T>(op: DequeOp<T>) -> bool {
    op is PushFront || op is PushBack
}

/// Number of pushes in `ops`.
pub open spec fn count_pushes<T>(ops: Seq<DequeOp<T>>) -> nat
    decreases ops.len(),
{
    if ops.len() == 0 {
        0
    } else {
        (if is_push(ops[0]) {
            1nat
        } else {
            0nat
        }) + count_pushes(ops.drop_first())
    }
}

/// Number of pops in `ops`.
pub open spec fn count_pops<T>(ops: Seq<DequeOp<T>>) -> nat
    decreases ops.len(),
{
    if ops.len() == 0 {
        0
    } else {
        (if is_push(ops[0]) {
            0nat
        } else {
            1nat
        }) + count_pops(ops.drop_first())
    }
}

/// Every pop in `ops`, run from `s`, finds an element to remove.
pub open spec fn pops_find_elements<T>(s: Seq<T>, ops: Seq<DequeOp<T>>) -> bool
    decreases ops.len(),
{
    ops.len() == 0 || ((!is_push(ops[0]) ==> s.len() > 0) && pops_find_elements(
        after_op(s, ops[0]),
        ops.drop_first(),
    ))
}

/// Pushing each of `items` at the back, in order.
pub open spec fn push_backs<T>(items: Seq<T>) -> Seq<DequeOp<T>> {
    items.map_values(|x: T| DequeOp::PushBack(x))
}

/// Pushing each of `items` at the front, in order.
pub open spec fn push_fronts<T>(items: Seq<T>) -> Seq<DequeOp<T>> {
    items.map_values(|x: T| DequeOp::PushFront(x))
}

/// `n` pops at the front.
pub open spec fn pop_fronts<T>(n: nat) -> Seq<DequeOp<T>> {
    Seq::new(n, |i: int| DequeOp::PopFront)
}

/// `n` pops at the back.
pub open spec fn pop_backs<T>(n: nat) -> Seq<DequeOp<T>> {
    Seq::new(n, |i: int| DequeOp::PopBack)
}

/// A list's length is its initial length plus the pushes minus the pops, for any run of
/// pushes and pops at either end in which no pop meets an empty list.
pub proof fn lemma_len_counts_pushes_and_pops<T>(s: Seq<T>, ops: Seq<DequeOp<T>>)
    requires
        pops_find_elements(s, ops),
    ensures
        after_ops(s, ops).len() == s.len() + count_pushes(ops) - count_pops(ops),
    decreases ops.len(),
{
    if ops.len() > 0 {
        lemma_len_counts_pushes_and_pops(after_op(s, ops[0]), ops.drop_first());
    }
}

/// Running `a` then `b` is running `a + b`.
pub proof fn lemma_ops_concat<T>(s: Seq<T>, a: Seq<DequeOp<T>>, b: Seq<DequeOp<T>>)
    ensures
        after_ops(s, a + b) == after_ops(after_ops(s, a), b),
        popped_all(s, a + b) == popped_all(s, a) + popped_all(after_ops(s, a), b),
    decreases a.len(),
{
    if a.len() == 0 {
        assert(a + b =~= b);
        assert(popped_all(s, a) + popped_all(after_ops(s, a), b) =~= popped_all(s, b));
    } else {
        assert((a + b).drop_first() =~= a.drop_first() + b);
        assert((a + b)[0] == a[0]);
        lemma_ops_concat(after_op(s, a[0]), a.drop_first(), b);
        let p = popped(s, a[0]);
        let q = popped_all(after_op(s, a[0]), a.drop_first());
        let r = popped_all(after_ops(s, a), b);
        assert(p + (q + r) =~= (p + q) + r);
    }
}

proof fn lemma_push_backs_effect<T>(s: Seq<T>, items: Seq<T>)
    ensures
        after_ops(s, push_backs(items)) == s + items,
        popped_all(s, push_backs(items)) == Seq::<T>::empty(),
    decreases items.len(),
{
    if items.len() == 0 {
        assert(push_backs(items) =~= Seq::<DequeOp<T>>::empty());
        assert(s + items =~= s);
    } else {
        assert(push_backs(items).drop_first() =~= push_backs(items.drop_first()));
        lemma_push_backs_effect(s.push(items[0]), items.drop_first());
        assert(s.push(items[0]) + items.drop_first() =~= s + items);
        assert(Seq::<T>::empty() + Seq::<T>::empty() =~= Seq::<T>::empty());
    }
}

proof fn lemma_push_fronts_effect<T>(s: Seq<T>, items: Seq<T>)
    ensures
        after_ops(s, push_fronts(items)) == items.reverse() + s,
        popped_all(s, push_fronts(items)) == Seq::<T>::empty(),
    decreases items.len(),
{
    if items.len() == 0 {
        assert(push_fronts(items) =~= Seq::<DequeOp<T>>::empty());
        assert(items.reverse() + s =~= s);
    } else {
        assert(push_fronts(items).drop_first() =~= push_fronts(items.drop_first()));
        lemma_push_fronts_effect(seq![items[0]] + s, items.drop_first());
        assert(items.drop_first().reverse() + (seq![items[0]] + s) =~= items.reverse() + s);
        assert(Seq::<T>::empty() + Seq::<T>::empty() =~= Seq::<T>::empty());
    }
}

proof fn lemma_pop_fronts_effect<T>(t: Seq<T>)
    ensures
        popped_all(t, pop_fronts(t.len())) == t,
    decreases t.len(),
{
    if t.len() == 0 {
        assert(pop_fronts::<T>(0) =~= Seq::<DequeOp<T>>::empty());
    } else {
        assert(pop_fronts::<T>(t.len()).drop_first() =~= pop_fronts::<T>(t.drop_first().len()));
        lemma_pop_fronts_effect(t.drop_first());
        assert(seq![t[0]] + t.drop_first() =~= t);
    }
}

proof fn lemma_pop_backs_effect<T>(t: Seq<T>)
    ensures
        popped_all(t, pop_backs(t.len())) == t.reverse(),
    decreases t.len(),
{
    if t.len() == 0 {
        assert(pop_backs::<T>(0) =~= Seq::<DequeOp<T>>::empty());
        assert(t.reverse() =~= Seq::<T>::empty());
    } else {
        assert(pop_backs::<T>(t.len()).drop_first() =~= pop_backs::<T>(t.drop_last().len()));
        lemma_pop_backs_effect(t.drop_last());
        assert(seq![t.last()] + t.drop_last().reverse() =~= t.reverse());
    }
}

/// Pushing at the back and popping at the front is first-in first-out: the pops hand
/// the items back in the order they were pushed, whatever the list held before.
pub proof fn lemma_push_back_pop_front_fifo<T>(s: Seq<T>, items: Seq<T>)
    ensures
        popped_all(s, push_backs(items) + pop_fronts((s.len() + items.len()) as nat)) == s + items,
        after_ops(s, push_backs(items) + pop_fronts((s.len() + items.len()) as nat)) == Seq::<
            T,
        >::empty(),
{
    let n = (s.len() + items.len()) as nat;
    lemma_ops_concat(s, push_backs(items), pop_fronts(n));
    lemma_push_backs_effect(s, items);
    lemma_pop_fronts_effect(s + items);
    lemma_pops_empty_front(s + items);
    assert(Seq::<T>::empty() + (s + items) =~= s + items);
}

/// Pushing at the front and popping at the back is first-in first-out from the other
/// end: on an empty list, the pops hand the items back in the order they were pushed.
pub proof fn lemma_push_front_pop_back_fifo<T>(items: Seq<T>)
    ensures
        popped_all(Seq::empty(), push_fronts(items) + pop_backs(items.len())) == items,
        after_ops(Seq::empty(), push_fronts(items) + pop_backs(items.len())) == Seq::<
            T,
        >::empty(),
{
    let e = Seq::<T>::empty();
    lemma_ops_concat(e, push_fronts(items), pop_backs(items.len()));
    lemma_push_fronts_effect(e, items);
    assert(items.reverse() + e =~= items.reverse());
    lemma_pop_backs_effect(items.reverse());
    lemma_pops_empty_back(items.reverse());
    assert(items.reverse().reverse() =~= items);
    assert(e + items =~= items);
}

proof fn lemma_pops_empty_front<T>(t: Seq<T>)
    ensures
        after_ops(t, pop_fronts(t.len())) == Seq::<T>::empty(),
    decreases t.len(),
{
    if t.len() == 0 {
        assert(pop_fronts::<T>(0) =~= Seq::<DequeOp<T>>::empty());
    } else {
        assert(pop_fronts::<T>(t.len()).drop_first() =~= pop_fronts::<T>(t.drop_first().len()));
        lemma_pops_empty_front(t.drop_first());
    }
}

proof fn lemma_pops_empty_back<T>(t: Seq<T>)
    ensures
        after_ops(t, pop_backs(t.len())) == Seq::<T>::empty(),
    decreases t.len(),
{
    if t.len() == 0 {
        assert(pop_backs::<T>(0) =~= Seq::<DequeOp<T>>::empty());
    } else {
        assert(pop_backs::<T>(t.len()).drop_first() =~= pop_backs::<T>(t.drop_last().len()));
        lemma_pops_empty_back(t.drop_last());
    }
}

/// Where a cursor is after `k` moves forward from `pos`.
pub open spec fn moved_next(pos: Option<usize>, len: nat, k: nat) -> Option<usize>
    decreases k,
{
    if k == 0 {
        pos
    } else {
        moved_next(next_position(pos, len), len, (k - 1) as nat)
    }
}

/// From the ghost position, `k` moves forward land on index `k - 1`, for `1 <= k <= len`.
proof fn lemma_moved_next_from_ghost(len: nat, k: nat)
    requires
        1 <= k <= len,
        len <= usize::MAX,
    ensures
        moved_next(None, len, k) == Some((k - 1) as usize),
    decreases k,
{
    if k == 1 {
        assert(moved_next(Some(0usize), len, 0) == Some(0usize));
    } else {
        let j = (k - 1) as nat;
        lemma_moved_next_from_ghost(len, j);
        lemma_moved_next_last(None, len, j);
        assert(j + 1 == k);
    }
}

proof fn lemma_moved_next_last(pos: Option<usize>, len: nat, k: nat)
    ensures
        moved_next(pos, len, k + 1) == next_position(moved_next(pos, len, k), len),
    decreases k,
{
    let next = next_position(pos, len);
    assert(moved_next(pos, len, k + 1) == moved_next(next, len, k));
    if k > 0 {
        let j = (k - 1) as nat;
        lemma_moved_next_last(next, len, j);
        assert(j + 1 == k);
        assert(moved_next(pos, len, k) == moved_next(next, len, j));
    } else {
        assert(moved_next(next, len, 0) == next);
    }
}

/// A fresh cursor on a non-empty list that moves forward `len + 1` times visits every
/// index in turn and ends at the ghost position; the move after that returns to index 0.
pub proof fn lemma_cursor_cycle(len: nat)
    requires
        0 < len <= usize::MAX,
    ensures
        forall|k: nat| 1 <= k <= len ==> #[trigger] moved_next(None, len, k) == Some((k - 1) as usize),
        moved_next(None, len, len + 1) is None,
        moved_next(None, len, len + 2) == Some(0usize),
{
    assert forall|k: nat| 1 <= k <= len implies #[trigger] moved_next(None, len, k) == Some(
        (k - 1) as usize,
    ) by {
        lemma_moved_next_from_ghost(len, k);
    }
    lemma_moved_next_from_ghost(len, len);
    lemma_moved_next_last(None, len, len);
    lemma_moved_next_last(None, len, len + 1);
}

} // verus!

//! The registry of a pool's workers: each worker's handle under the identity it was
//! given at spawn time. Identities are handed out in increasing order and never reused.
use vstd::prelude::*;

verus! {

/// Whether some entry of `entries` is registered under `id`.
pub open spec fn holds_id<H>(entries: Seq<(usize, H)>, id: usize) -> bool {
    exists|i: int| 0 <= i < entries.len() && (#[trigger] entries[i]).0 == id
}

/// No identity is registered twice.
pub open spec fn ids_unique<H>(entries: Seq<(usize, H)>) -> bool {
    forall|i: int, j: int|
        0 <= i < entries.len() && 0 <= j < entries.len() && i != j ==> (#[trigger] entries[i]).0
            != (#[trigger] entries[j]).0
}

/// The handles of `entries`, in the same order.
pub open spec fn handles_of<H>(entries: Seq<(usize, H)>) -> Seq<H> {
    entries.map_values(|e: (usize, H)| e.1)
}

/// Worker handles keyed by worker identity, in order of registration.
pub struct WorkerRegistry<H> {
    entries: Vec<(usize, H)>,
    next_id: usize,
}

impl<H> WorkerRegistry<H> {
    /// The registered entries, oldest first.
    pub closed spec fn view(&self) -> Seq<(usize, H)> {
        self.entries@
    }

    /// The identity the next spawned worker will get.
    pub closed spec fn next_id(&self) -> usize {
        self.next_id
    }

    pub closed spec fn well_formed(&self) -> bool {
        ids_unique(self.entries@)
    }

    /// An empty registry whose first identity is 0.
    pub fn new() -> (r: Self)
        ensures
            r.well_formed(),
            r@ == Seq::<(usize, H)>::empty(),
            r.next_id() == 0,
    {
        WorkerRegistry { entries: Vec::new(), next_id: 0 }
    }

    /// Hands out a fresh identity, larger than every one handed out before; `None`
    /// once identities are exhausted.
    pub fn allocate_id(&mut self) -> (r: Option<usize>)
        requires
            old(self).well_formed(),
        ensures
            final(self).well_formed(),
            final(self)@ == old(self)@,
            old(self).next_id() < usize::MAX ==> r == Some(old(self).next_id())
                && final(self).next_id() == old(self).next_id() + 1,
            old(self).next_id() == usize::MAX ==> r is None && final(self).next_id()
                == old(self).next_id(),
    {
        if self.next_id < usize::MAX {
            let id = self.next_id;
            self.next_id = id + 1;
            Some(id)
        } else {
            None
        }
    }

    /// Position of the entry registered under `id`.
    fn find(&self, id: usize) -> (r: Option<usize>)
        requires
            self.well_formed(),
        ensures
            r is None ==> !holds_id(self@, id),
            r matches Some(i) ==> i < self@.len() && self@[i as int].0 == id,
    {
        let mut i: usize = 0;
        while i < self.entries.len()
            invariant
                i <= self.entries@.len(),
                forall|j: int| 0 <= j < i ==> (#[trigger] self.entries@[j]).0 != id,
            decreases self.entries@.len() - i,
        {
            if self.entries[i].0 == id {
                return Some(i);
            }
            i = i + 1;
        }
        None
    }

    /// Whether a worker is registered under `id`.
    pub fn contains(&self, id: usize) -> (r: bool)
        requires
            self.well_formed(),
        ensures
            r == holds_id(self@, id),
    {
        self.find(id).is_some()
    }

    /// Number of registered workers.
    pub fn len(&self) -> (r: usize)
        ensures
            r == self@.len(),
    {
        self.entries.len()
    }

    /// Registers `handle` under `id`. When `id` is taken already nothing changes and the
    /// handle comes back.
    pub fn insert(&mut self, id: usize, handle: H) -> (r: Option<H>)
        requires
            old(self).well_formed(),
        ensures
            final(self).well_formed(),
            final(self).next_id() == old(self).next_id(),
            holds_id(old(self)@, id) ==> r == Some(handle) && final(self)@ == old(self)@,
            !holds_id(old(self)@, id) ==> r is None && final(self)@ == old(self)@.push((id, handle)),
    {
        match self.find(id) {
            Some(_) => Some(handle),
            None => {
                self.entries.push((id, handle));
                None
            },
        }
    }

    /// Takes out the handle registered under `id`, if any.
    pub fn remove(&mut self, id: usize) -> (r: Option<H>)
        requires
            old(self).well_formed(),
        ensures
            final(self).well_formed(),
            final(self).next_id() == old(self).next_id(),
            !holds_id(old(self)@, id) ==> r is None && final(self)@ == old(self)@,
            holds_id(old(self)@, id) ==> exists|i: int|
                0 <= i < old(self)@.len() && (#[trigger] old(self)@[i]).0 == id && r == Some(
                    old(self)@[i].1,
                ) && final(self)@ == old(self)@.remove(i),
            !holds_id(final(self)@, id),
    {
        match self.find(id) {
            Some(i) => {
                let ghost before = self.entries@;
                let (_, handle) = self.entries.remove(i);
                assert(!holds_id(self.entries@, id)) by {
                    assert forall|j: int| 0 <= j < self.entries@.len() implies (
                    #[trigger] self.entries@[j]).0 != id by {
                        if j < i {
                            assert(before[j] == self.entries@[j]);
                        } else {
                            assert(before[j + 1] == self.entries@[j]);
                        }
                    }
                }
                assert(before[i as int].0 == id);
                Some(handle)
            },
            None => None,
        }
    }

    /// Takes out every handle, oldest first, leaving the registry empty. Each registered
    /// handle comes out exactly once.
    pub fn drain(&mut self) -> (r: Vec<H>)
        requires
            old(self).well_formed(),
        ensures
            final(self).well_formed(),
            final(self).next_id() == old(self).next_id(),
            final(self)@ == Seq::<(usize, H)>::empty(),
            r@ == handles_of(old(self)@),
    {
        let mut taken: Vec<(usize, H)> = Vec::new();
        std::mem::swap(&mut taken, &mut self.entries);
        let ghost all = taken@;
        let mut out: Vec<H> = Vec::new();
        while taken.len() > 0
            invariant
                taken@.len() <= all.len(),
                taken@ == all.subrange(all.len() - taken@.len(), all.len() as int),
                out@ == handles_of(all.subrange(0, all.len() - taken@.len())),
            decreases taken@.len(),
        {
            let ghost n = taken@.len();
            assert(taken@[0] == all[all.len() - n]);
            let (_, handle) = taken.remove(0);
            out.push(handle);
            assert(all.subrange(0, all.len() - n + 1) =~= all.subrange(0, all.len() - n).push(
                all[all.len() - n],
            ));
            assert(out@ =~= handles_of(all.subrange(0, all.len() - taken@.len())));
            assert(taken@ =~= all.subrange(all.len() - taken@.len(), all.len() as int));
        }
        assert(all.subrange(0, all.len() as int) =~= all);
        assert(self.entries@ =~= Seq::<(usize, H)>::empty());
        out
    }
}

/// A worker's entry, once taken out of the registry (by the worker itself as it retires,
/// or by teardown), is gone for good: what is left still has unique identities and holds
/// no entry under that identity, so no later removal or drain hands the same handle out
/// again. After a drain nothing is left under any identity.
pub proof fn lemma_taken_entry_is_gone<H>(entries: Seq<(usize, H)>, i: int, id: usize)
    requires
        ids_unique(entries),
        0 <= i < entries.len(),
    ensures
        ids_unique(entries.remove(i)),
        !holds_id(entries.remove(i), entries[i].0),
        !holds_id(Seq::<(usize, H)>::empty(), id),
        handles_of(entries).len() == entries.len(),
{
    let rest = entries.remove(i);
    assert forall|a: int, b: int|
        0 <= a < rest.len() && 0 <= b < rest.len() && a != b implies (#[trigger] rest[a]).0 != (
    #[trigger] rest[b]).0 by {
        let a0 = if a < i {
            a
        } else {
            a + 1
        };
        let b0 = if b < i {
            b
        } else {
            b + 1
        };
        assert(rest[a] == entries[a0]);
        assert(rest[b] == entries[b0]);
    }
    assert forall|j: int| 0 <= j < rest.len() implies (#[trigger] rest[j]).0 != entries[i].0 by {
        let j0 = if j < i {
            j
        } else {
            j + 1
        };
        assert(rest[j] == entries[j0]);
    }
}

} // verus!

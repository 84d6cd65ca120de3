//! Store mapping opaque `u64` handles to values.
//!
//! Handles are drawn from a counter owned by the store, so no two
//! insertions into one store ever return the same handle (until the
//! counter saturates at `u64::MAX`, after which the saturated handle is
//! reused). Entries are kept ordered by handle, oldest first.
use vstd::prelude::*;

verus! {

pub struct HandleStore<T> {
    entries: Vec<(u64, T)>,
    next_handle: u64,
}

impl<T> View for HandleStore<T> {
    type V = Seq<(u64, T)>;

    closed spec fn view(&self) -> Seq<(u64, T)> {
        self.entries@
    }
}

impl<T> HandleStore<T> {
    /// Handle that the next insertion will return.
    pub closed spec fn next_spec(&self) -> u64 {
        self.next_handle
    }

    /// Well-formedness: handles are nonzero and strictly increasing in
    /// storage order, and stay below the allocation counter (an entry may
    /// equal it only once the counter has saturated).
    pub closed spec fn wf(&self) -> bool {
        &&& 1 <= self.next_handle
        &&& (forall|i: int|
            0 <= i < self.entries@.len() ==> {
                &&& 1 <= (#[trigger] self.entries@[i]).0
                &&& self.entries@[i].0 <= self.next_handle
                &&& (self.entries@[i].0 == self.next_handle ==> self.next_handle == u64::MAX)
            })
        &&& (forall|i: int, j: int|
            0 <= i < j < self.entries@.len() ==> (#[trigger] self.entries@[i]).0 < (
            #[trigger] self.entries@[j]).0)
    }

    /// Whether some entry carries this handle.
    pub open spec fn contains_key(&self, handle: u64) -> bool {
        exists|i: int| 0 <= i < self@.len() && (#[trigger] self@[i]).0 == handle
    }

    /// Position of the entry carrying this handle (unique under `wf`).
    pub open spec fn index_of(&self, handle: u64) -> int {
        choose|i: int| 0 <= i < self@.len() && (#[trigger] self@[i]).0 == handle
    }

    /// The value stored under this handle.
    pub open spec fn value_of(&self, handle: u64) -> T {
        self@[self.index_of(handle)].1
    }

    /// Under `wf`, an entry whose handle matches sits exactly at `index_of`.
    proof fn lemma_index_unique(&self, i: int, handle: u64)
        requires
            self.wf(),
            0 <= i < self@.len(),
            self@[i].0 == handle,
        ensures
            self.contains_key(handle),
            self.index_of(handle) == i,
    {
        assert(self.contains_key(handle));
        let j = self.index_of(handle);
        if j < i {
            assert(self@[j].0 < self@[i].0);
        } else if i < j {
            assert(self@[i].0 < self@[j].0);
        }
    }

    pub fn new() -> (r: Self)
        ensures
            r.wf(),
            r@.len() == 0,
            r.next_spec() == 1,
    {
        HandleStore { entries: Vec::new(), next_handle: 1 }
    }

    /// Insert an item and return its handle, fresh while the counter has
    /// not saturated.
    pub fn insert(&mut self, item: T) -> (handle: u64)
        requires
            old(self).wf(),
        ensures
            final(self).wf(),
            handle == old(self).next_spec(),
            !old(self).contains_key(handle) ==> final(self)@ == old(self)@.push((handle, item)),
            old(self).next_spec() < u64::MAX ==> {
                &&& !old(self).contains_key(handle)
                &&& final(self).next_spec() == old(self).next_spec() + 1
            },
            old(self).next_spec() == u64::MAX ==> final(self).next_spec() == u64::MAX,
            final(self).contains_key(handle),
            final(self).value_of(handle) == item,
    {
        let handle = self.next_handle;
        if self.next_handle < u64::MAX {
            assert(forall|i: int|
                0 <= i < self.entries@.len() ==> (#[trigger] self.entries@[i]).0 < handle);
            self.entries.push((handle, item));
            self.next_handle = self.next_handle + 1;
            proof {
                self.lemma_index_unique(self@.len() - 1, handle);
            }
        } else {
            // The counter has saturated: the saturated handle is reused, and
            // under `wf` it can only sit in the last slot.
            let n = self.entries.len();
            if n > 0 && self.entries[n - 1].0 == u64::MAX {
                let last = &mut self.entries[n - 1];
                *last = (u64::MAX, item);
            } else {
                assert(forall|i: int|
                    0 <= i < self.entries@.len() ==> (#[trigger] self.entries@[i]).0 < u64::MAX);
                self.entries.push((u64::MAX, item));
            }
            proof {
                self.lemma_index_unique(self@.len() - 1, handle);
            }
        }
        handle
    }

    /// Borrow the item stored under `handle`, if any.
    pub fn get(&self, handle: u64) -> (r: Option<&T>)
        requires
            self.wf(),
        ensures
            r is Some <==> self.contains_key(handle),
            r matches Some(v) ==> *v == self.value_of(handle),
    {
        let n = self.entries.len();
        let mut i: usize = 0;
        while i < n
            invariant
                self.wf(),
                n == self@.len(),
                i <= n,
                forall|j: int| 0 <= j < i ==> (#[trigger] self@[j]).0 != handle,
            decreases n - i,
        {
            if self.entries[i].0 == handle {
                proof {
                    self.lemma_index_unique(i as int, handle);
                }
                return Some(&self.entries[i].1);
            }
            i = i + 1;
        }
        None
    }

    /// Mutably borrow the item stored under `handle`, if any.
    pub fn get_mut(&mut self, handle: u64) -> (r: Option<&mut T>)
        requires
            old(self).wf(),
        ensures
            r is Some <==> old(self).contains_key(handle),
            r matches Some(v) ==> {
                &&& *v == old(self).value_of(handle)
                &&& final(self)@ == old(self)@.update(
                    old(self).index_of(handle),
                    (handle, *final(v)),
                )
                &&& final(self).next_spec() == old(self).next_spec()
                &&& final(self).wf()
            },
            r is None ==> final(self)@ == old(self)@ && final(self).next_spec() == old(self).next_spec() && final(self).wf(),
    {
        let n = self.entries.len();
        let mut i: usize = 0;
        while i < n
            invariant
                self.wf(),
                self == old(self),
                n == self@.len(),
                i <= n,
                forall|j: int| 0 <= j < i ==> (#[trigger] self@[j]).0 != handle,
            decreases n - i,
        {
            if self.entries[i].0 == handle {
                proof {
                    self.lemma_index_unique(i as int, handle);
                }
                let entry = &mut self.entries[i];
                return Some(&mut entry.1);
            }
            i = i + 1;
        }
        None
    }

    /// Remove and return the item stored under `handle`, if any.
    pub fn remove(&mut self, handle: u64) -> (r: Option<T>)
        requires
            old(self).wf(),
        ensures
            final(self).wf(),
            final(self).next_spec() == old(self).next_spec(),
            r is Some <==> old(self).contains_key(handle),
            r matches Some(v) ==> {
                &&& v == old(self).value_of(handle)
                &&& final(self)@ == old(self)@.remove(old(self).index_of(handle))
            },
            r is None ==> final(self)@ == old(self)@,
            !final(self).contains_key(handle),
    {
        let n = self.entries.len();
        let mut i: usize = 0;
        while i < n
            invariant
                self.wf(),
                self == old(self),
                n == self@.len(),
                i <= n,
                forall|j: int| 0 <= j < i ==> (#[trigger] self@[j]).0 != handle,
            decreases n - i,
        {
            if self.entries[i].0 == handle {
                proof {
                    self.lemma_index_unique(i as int, handle);
                }
                let (_, v) = self.entries.remove(i);
                proof {
                    if self.contains_key(handle) {
                        let j = self.index_of(handle);
                        if j < i {
                            assert(old(self)@[j].0 == handle);
                            old(self).lemma_index_unique(j, handle);
                        } else {
                            assert(old(self)@[j + 1].0 == handle);
                            old(self).lemma_index_unique(j + 1, handle);
                        }
                    }
                }
                return Some(v);
            }
            i = i + 1;
        }
        None
    }

    /// Handles of all entries, oldest first.
    pub fn iter(&self) -> (r: Vec<u64>)
        requires
            self.wf(),
        ensures
            r@.len() == self@.len(),
            forall|i: int| 0 <= i < r@.len() ==> r@[i] == (#[trigger] self@[i]).0,
    {
        let n = self.entries.len();
        let mut out: Vec<u64> = Vec::new();
        let mut i: usize = 0;
        while i < n
            invariant
                n == self@.len(),
                i <= n,
                out@.len() == i,
                forall|j: int| 0 <= j < i ==> out@[j] == (#[trigger] self@[j]).0,
            decreases n - i,
        {
            out.push(self.entries[i].0);
            i = i + 1;
        }
        out
    }

    /// In a well-formed store no handle appears twice, so the handles
    /// `iter` returns are pairwise distinct.
    pub proof fn lemma_handles_distinct(&self)
        requires
            self.wf(),
        ensures
            forall|i: int, j: int|
                0 <= i < j < self@.len() ==> (#[trigger] self@[i]).0 != (#[trigger] self@[j]).0,
    {
    }

    /// Number of stored items.
    pub fn len(&self) -> (r: usize)
        ensures
            r == self@.len(),
    {
        self.entries.len()
    }

    /// Drop every entry; the allocation counter is kept, so handles stay
    /// distinct across a clear.
    pub fn clear(&mut self)
        requires
            old(self).wf(),
        ensures
            final(self).wf(),
            final(self)@.len() == 0,
            final(self).next_spec() == old(self).next_spec(),
    {
        self.entries.clear();
    }
}

impl<T> Default for HandleStore<T> {
    fn default() -> (r: Self)
        ensures
            r.wf(),
            r@.len() == 0,
            r.next_spec() == 1,
    {
        HandleStore::new()
    }
}

} // verus!

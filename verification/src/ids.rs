//! A map from numeric identifiers to items that keeps the order of
//! insertion.

use vstd::prelude::*;

verus! {

/// The position of an identifier in a list, if it is there.
pub open spec fn id_position(ids: Seq<u64>, id: u64) -> Option<int>
    decreases ids.len(),
{
    if ids.len() == 0 {
        None
    } else if ids.last() == id {
        Some(ids.len() - 1)
    } else {
        id_position(ids.drop_last(), id)
    }
}

/// A position found holds the identifier; when none is found, no entry
/// holds it.
pub proof fn lemma_id_position(ids: Seq<u64>, id: u64)
    ensures
        match id_position(ids, id) {
            Some(i) => 0 <= i < ids.len() && ids[i] == id,
            None => forall|j: int| 0 <= j < ids.len() ==> ids[j] != id,
        },
    decreases ids.len(),
{
    if ids.len() > 0 && ids.last() != id {
        let front = ids.drop_last();
        lemma_id_position(front, id);
        match id_position(front, id) {
            Some(i) => {
                assert(front[i] == ids[i]);
            },
            None => {
                assert forall|j: int| 0 <= j < ids.len() implies ids[j] != id by {
                    if j < front.len() {
                        assert(front[j] == ids[j]);
                    }
                }
            },
        }
    }
}

/// Whether no identifier occurs twice.
pub open spec fn distinct_ids(ids: Seq<u64>) -> bool {
    forall|i: int, j: int| 0 <= i < j < ids.len() ==> ids[i] != ids[j]
}

/// A map from identifiers to items; the entries stay in the order in
/// which their identifiers were first inserted.
#[derive(Debug)]
pub struct IdMap<T> {
    ids: Vec<u64>,
    items: Vec<T>,
}

impl<T> IdMap<T> {
    #[verifier::type_invariant]
    spec fn inv(&self) -> bool {
        self.ids@.len() == self.items@.len() && distinct_ids(self.ids@)
    }

    /// The identifiers, in the order of insertion; none occurs twice.
    pub closed spec fn ids_view(&self) -> Seq<u64> {
        self.ids@
    }

    /// The items, each at the position of its identifier.
    pub closed spec fn items_view(&self) -> Seq<T> {
        self.items@
    }

    /// The entries hold together: one item per identifier, and no
    /// identifier twice.
    pub open spec fn wf(&self) -> bool {
        self.ids_view().len() == self.items_view().len() && distinct_ids(self.ids_view())
    }

    /// Whether the map has the identifier.
    pub open spec fn has(&self, id: u64) -> bool {
        id_position(self.ids_view(), id) is Some
    }

    /// The item under the identifier; meaningful where the map has it.
    pub open spec fn item(&self, id: u64) -> T {
        self.items_view()[id_position(self.ids_view(), id).unwrap()]
    }

    /// An empty map.
    pub fn new() -> (r: Self)
        ensures
            r.ids_view() == Seq::<u64>::empty(),
            r.items_view() == Seq::<T>::empty(),
            r.wf(),
    {
        let map = IdMap { ids: Vec::new(), items: Vec::new() };
        proof {
            assert(map.ids@ =~= Seq::<u64>::empty());
            assert(map.items@ =~= Seq::<T>::empty());
        }
        map
    }

    /// Number of entries.
    pub fn len(&self) -> (r: usize)
        ensures
            r == self.ids_view().len(),
            self.wf(),
    {
        proof {
            use_type_invariant(self);
        }
        self.ids.len()
    }

    /// The position of an identifier.
    pub fn position(&self, id: u64) -> (r: Option<usize>)
        ensures
            self.wf(),
            match r {
                Some(i) => id_position(self.ids_view(), id) == Some(i as int) && i
                    < self.ids_view().len() && self.ids_view()[i as int] == id,
                None => id_position(self.ids_view(), id) is None,
            },
    {
        proof {
            use_type_invariant(self);
            lemma_id_position(self.ids@, id);
        }
        let mut i: usize = 0;
        while i < self.ids.len()
            invariant
                self.wf(),
                i <= self.ids@.len(),
                forall|j: int| 0 <= j < i ==> self.ids@[j] != id,
            decreases self.ids@.len() - i,
        {
            if self.ids[i] == id {
                proof {
                    lemma_id_position(self.ids@, id);
                }
                return Some(i);
            }
            i += 1;
        }
        None
    }

    /// The item under an identifier.
    pub fn get(&self, id: u64) -> (r: Option<&T>)
        ensures
            self.wf(),
            match r {
                Some(item) => self.has(id) && *item == self.item(id),
                None => !self.has(id),
            },
    {
        proof {
            use_type_invariant(self);
        }
        match self.position(id) {
            Some(i) => Some(&self.items[i]),
            None => None,
        }
    }

    /// The identifier at a position.
    pub fn id_at(&self, i: usize) -> (r: u64)
        requires
            i < self.ids_view().len(),
        ensures
            r == self.ids_view()[i as int],
    {
        self.ids[i]
    }

    /// The item at a position.
    pub fn item_at(&self, i: usize) -> (r: &T)
        requires
            i < self.items_view().len(),
        ensures
            *r == self.items_view()[i as int],
    {
        &self.items[i]
    }

    /// The item at a position, for changing it in place.
    pub fn item_at_mut(&mut self, i: usize) -> (r: &mut T)
        requires
            i < old(self).items_view().len(),
        ensures
            *r == old(self).items_view()[i as int],
            final(self).ids_view() == old(self).ids_view(),
            final(self).items_view() == old(self).items_view().update(i as int, *final(r)),
        no_unwind
    {
        proof {
            use_type_invariant(&*self);
        }
        &mut self.items[i]
    }

    /// Puts an item under an identifier. An item already under it is
    /// replaced, its place kept, and handed back; a new identifier goes to
    /// the end.
    pub fn insert(&mut self, id: u64, item: T) -> (r: Option<T>)
        ensures
            final(self).wf(),
            match id_position(old(self).ids_view(), id) {
                Some(i) => r == Some(old(self).items_view()[i]) && final(self).ids_view() == old(self).ids_view() && final(self).items_view() == old(self).items_view().update(i, item),
                None => r is None && final(self).ids_view() == old(self).ids_view().push(id)
                    && final(self).items_view() == old(self).items_view().push(item),
            },
    {
        proof {
            use_type_invariant(&*self);
        }
        let found = self.position(id);
        let ghost old_ids = self.ids@;
        let mut taken = IdMap { ids: Vec::new(), items: Vec::new() };
        core::mem::swap(self, &mut taken);
        let IdMap { ids: mut ids, items: mut items } = taken;
        match found {
            Some(i) => {
                let mut held = item;
                core::mem::swap(&mut items[i], &mut held);
                *self = IdMap { ids, items };
                Some(held)
            },
            None => {
                ids.push(id);
                items.push(item);
                proof {
                    lemma_id_position(old_ids, id);
                    assert forall|a: int, b: int| 0 <= a < b < ids@.len() implies ids@[a]
                        != ids@[b] by {
                        if b < old_ids.len() {
                            assert(ids@[a] == old_ids[a] && ids@[b] == old_ids[b]);
                        } else {
                            assert(ids@[a] == old_ids[a]);
                        }
                    }
                }
                *self = IdMap { ids, items };
                None
            },
        }
    }

    /// Takes the entry under an identifier out of the map, keeping the
    /// order of the others.
    pub fn remove(&mut self, id: u64) -> (r: Option<T>)
        ensures
            final(self).wf(),
            match id_position(old(self).ids_view(), id) {
                Some(i) => r == Some(old(self).items_view()[i]) && final(self).ids_view() == old(self).ids_view().remove(i) && final(self).items_view() == old(self).items_view().remove(i),
                None => r is None && final(self).ids_view() == old(self).ids_view()
                    && final(self).items_view() == old(self).items_view(),
            },
    {
        proof {
            use_type_invariant(&*self);
        }
        match self.position(id) {
            Some(i) => {
                let ghost old_ids = self.ids@;
                let mut taken = IdMap { ids: Vec::new(), items: Vec::new() };
                core::mem::swap(self, &mut taken);
                let IdMap { ids: mut ids, items: mut items } = taken;
                ids.remove(i);
                let item = items.remove(i);
                proof {
                    assert forall|a: int, b: int| 0 <= a < b < ids@.len() implies ids@[a]
                        != ids@[b] by {
                        let a0 = if a < i { a } else { a + 1 };
                        let b0 = if b < i { b } else { b + 1 };
                        assert(ids@[a] == old_ids[a0] && ids@[b] == old_ids[b0]);
                    }
                }
                *self = IdMap { ids, items };
                Some(item)
            },
            None => None,
        }
    }

    /// The identifiers, in the order of insertion.
    pub fn keys(&self) -> (r: Vec<u64>)
        ensures
            r@ == self.ids_view(),
    {
        let mut out: Vec<u64> = Vec::with_capacity(self.ids.len());
        let mut i: usize = 0;
        while i < self.ids.len()
            invariant
                i <= self.ids@.len(),
                out@ == self.ids@.take(i as int),
            decreases self.ids@.len() - i,
        {
            out.push(self.ids[i]);
            proof {
                assert(self.ids@.take(i + 1) =~= self.ids@.take(i as int).push(self.ids@[i as int]));
            }
            i += 1;
        }
        proof {
            assert(self.ids@.take(self.ids@.len() as int) =~= self.ids@);
        }
        out
    }
}

} // verus!

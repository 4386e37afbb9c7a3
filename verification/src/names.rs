//! A map from names to items that keeps the order of insertion.

use crate::order::same_text;
use vstd::prelude::*;

verus! {

/// The position of a name in a list of names, if it is there.
pub open spec fn name_position(names: Seq<Seq<char>>, name: Seq<char>) -> Option<int>
    decreases names.len(),
{
    if names.len() == 0 {
        None
    } else if names.last() == name {
        Some(names.len() - 1)
    } else {
        name_position(names.drop_last(), name)
    }
}

/// A position found holds the name; when none is found, no entry holds it.
pub proof fn lemma_name_position(names: Seq<Seq<char>>, name: Seq<char>)
    ensures
        match name_position(names, name) {
            Some(i) => 0 <= i < names.len() && names[i] == name,
            None => forall|j: int| 0 <= j < names.len() ==> names[j] != name,
        },
    decreases names.len(),
{
    if names.len() > 0 && names.last() != name {
        let front = names.drop_last();
        lemma_name_position(front, name);
        match name_position(front, name) {
            Some(i) => {
                assert(front[i] == names[i]);
            },
            None => {
                assert forall|j: int| 0 <= j < names.len() implies names[j] != name by {
                    if j < front.len() {
                        assert(front[j] == names[j]);
                    }
                }
            },
        }
    }
}

/// Whether no name occurs twice.
pub open spec fn distinct(names: Seq<Seq<char>>) -> bool {
    forall|i: int, j: int| 0 <= i < j < names.len() ==> names[i] != names[j]
}

/// Among distinct names, the position of a name is the only place where it
/// stands.
pub proof fn lemma_position_unique(names: Seq<Seq<char>>, i: int)
    requires
        distinct(names),
        0 <= i < names.len(),
    ensures
        name_position(names, names[i]) == Some(i),
{
    lemma_name_position(names, names[i]);
}

/// A map from names to items; the entries stay in the order in which
/// their names were first inserted.
#[derive(Debug)]
pub struct NameMap<T> {
    names: Vec<String>,
    items: Vec<T>,
}

impl<T> NameMap<T> {
    #[verifier::type_invariant]
    spec fn inv(&self) -> bool {
        self.names@.len() == self.items@.len() && distinct(self.names_view())
    }

    /// The names, in the order of insertion; no name occurs twice.
    pub closed spec fn names_view(&self) -> Seq<Seq<char>> {
        self.names@.map_values(|n: String| n@)
    }

    /// The items, each at the position of its name.
    pub closed spec fn items_view(&self) -> Seq<T> {
        self.items@
    }

    /// The entries hold together: one item per name, and no name twice.
    pub open spec fn wf(&self) -> bool {
        self.names_view().len() == self.items_view().len() && distinct(self.names_view())
    }

    /// Whether the map has the name.
    pub open spec fn has(&self, name: Seq<char>) -> bool {
        name_position(self.names_view(), name) is Some
    }

    /// The item under the name; meaningful where the map has the name.
    pub open spec fn item(&self, name: Seq<char>) -> T {
        self.items_view()[name_position(self.names_view(), name).unwrap()]
    }

    /// An empty map.
    pub fn new() -> (r: Self)
        ensures
            r.names_view().len() == 0,
            r.items_view().len() == 0,
            r.wf(),
    {
        NameMap { names: Vec::new(), items: Vec::new() }
    }

    /// Number of entries.
    pub fn len(&self) -> (r: usize)
        ensures
            r == self.names_view().len(),
            self.wf(),
    {
        proof {
            use_type_invariant(self);
        }
        self.names.len()
    }

    /// The position of a name.
    pub fn position(&self, name: &str) -> (r: Option<usize>)
        ensures
            self.wf(),
            match r {
                Some(i) => name_position(self.names_view(), name@) == Some(i as int) && i
                    < self.names_view().len() && self.names_view()[i as int] == name@,
                None => name_position(self.names_view(), name@) is None,
            },
    {
        proof {
            use_type_invariant(self);
            lemma_name_position(self.names_view(), name@);
        }
        let mut i: usize = 0;
        while i < self.names.len()
            invariant
                self.wf(),
                i <= self.names@.len(),
                forall|j: int| 0 <= j < i ==> self.names_view()[j] != name@,
            decreases self.names@.len() - i,
        {
            if same_text(self.names[i].as_str(), name) {
                proof {
                    assert(self.names_view()[i as int] == name@);
                    lemma_position_unique(self.names_view(), i as int);
                }
                return Some(i);
            }
            i += 1;
        }
        None
    }

    /// Whether the map has the name.
    pub fn contains(&self, name: &str) -> (r: bool)
        ensures
            r == self.has(name@),
    {
        self.position(name).is_some()
    }

    /// The item under a name.
    pub fn get(&self, name: &str) -> (r: Option<&T>)
        ensures
            self.wf(),
            match r {
                Some(item) => self.has(name@) && *item == self.item(name@),
                None => !self.has(name@),
            },
    {
        proof {
            use_type_invariant(self);
        }
        match self.position(name) {
            Some(i) => Some(&self.items[i]),
            None => None,
        }
    }

    /// The name at a position.
    pub fn name_at(&self, i: usize) -> (r: &String)
        requires
            i < self.names_view().len(),
        ensures
            r@ == self.names_view()[i as int],
    {
        &self.names[i]
    }

    /// The item at a position.
    pub fn item_at(&self, i: usize) -> (r: &T)
        requires
            i < self.items_view().len(),
        ensures
            *r == self.items_view()[i as int],
    {
        &self.items[i]
    }

    /// The item at a position, for changing it in place.
    pub fn item_at_mut(&mut self, i: usize) -> (r: &mut T)
        requires
            i < old(self).items_view().len(),
        ensures
            *r == old(self).items_view()[i as int],
            final(self).names_view() == old(self).names_view(),
            final(self).items_view() == old(self).items_view().update(i as int, *final(r)),
        no_unwind
    {
        proof {
            use_type_invariant(&*self);
        }
        &mut self.items[i]
    }

    /// Exchanges the item at a position with another item.
    pub fn swap_item(&mut self, i: usize, item: &mut T)
        requires
            i < old(self).items_view().len(),
        ensures
            final(self).names_view() == old(self).names_view(),
            final(self).items_view() == old(self).items_view().update(i as int, *old(item)),
            *final(item) == old(self).items_view()[i as int],
    {
        proof {
            use_type_invariant(&*self);
        }
        let mut taken = NameMap { names: Vec::new(), items: Vec::new() };
        core::mem::swap(self, &mut taken);
        let NameMap { names, items: mut items } = taken;
        core::mem::swap(&mut items[i], item);
        *self = NameMap { names, items };
    }

    /// Puts an item under a name. An item already under that name is
    /// replaced, its place kept, and handed back; a new name goes to the
    /// end.
    pub fn insert(&mut self, name: String, item: T) -> (r: Option<T>)
        ensures
            final(self).wf(),
            match name_position(old(self).names_view(), name@) {
                Some(i) => r == Some(old(self).items_view()[i]) && final(self).names_view() == old(self).names_view() && final(self).items_view() == old(self).items_view().update(
                    i,
                    item,
                ),
                None => r is None && final(self).names_view() == old(self).names_view().push(name@)
                    && final(self).items_view() == old(self).items_view().push(item),
            },
    {
        proof {
            use_type_invariant(&*self);
        }
        match self.position(name.as_str()) {
            Some(i) => {
                let mut held = item;
                self.swap_item(i, &mut held);
                proof {
                    use_type_invariant(&*self);
                }
                Some(held)
            },
            None => {
                let ghost old_names = self.names_view();
                let mut taken = NameMap { names: Vec::new(), items: Vec::new() };
                core::mem::swap(self, &mut taken);
                let NameMap { names: mut names, items: mut items } = taken;
                names.push(name);
                items.push(item);
                proof {
                    let new_names = names@.map_values(|n: String| n@);
                    assert(new_names =~= old_names.push(name@));
                    lemma_name_position(old_names, name@);
                    assert forall|i: int, j: int| 0 <= i < j < new_names.len() implies new_names[i]
                        != new_names[j] by {
                        if j < old_names.len() {
                            assert(new_names[i] == old_names[i] && new_names[j] == old_names[j]);
                        } else {
                            assert(new_names[i] == old_names[i]);
                        }
                    }
                }
                *self = NameMap { names, items };
                None
            },
        }
    }

    /// Takes the entry under a name out of the map, keeping the order of
    /// the others.
    pub fn remove(&mut self, name: &str) -> (r: Option<T>)
        ensures
            final(self).wf(),
            match name_position(old(self).names_view(), name@) {
                Some(i) => r == Some(old(self).items_view()[i]) && final(self).names_view() == old(self).names_view().remove(i) && final(self).items_view() == old(self).items_view().remove(i),
                None => r is None && final(self).names_view() == old(self).names_view()
                    && final(self).items_view() == old(self).items_view(),
            },
    {
        proof {
            use_type_invariant(&*self);
        }
        match self.position(name) {
            Some(i) => {
                let ghost old_names = self.names_view();
                let mut taken = NameMap { names: Vec::new(), items: Vec::new() };
                core::mem::swap(self, &mut taken);
                let NameMap { names: mut names, items: mut items } = taken;
                names.remove(i);
                let item = items.remove(i);
                proof {
                    let new_names = names@.map_values(|n: String| n@);
                    assert(new_names =~= old_names.remove(i as int));
                    assert forall|a: int, b: int| 0 <= a < b < new_names.len() implies new_names[a]
                        != new_names[b] by {
                        let a0 = if a < i { a } else { a + 1 };
                        let b0 = if b < i { b } else { b + 1 };
                        assert(new_names[a] == old_names[a0] && new_names[b] == old_names[b0]);
                    }
                }
                *self = NameMap { names, items };
                Some(item)
            },
            None => None,
        }
    }

    /// The names, in the order of insertion.
    pub fn keys(&self) -> (r: Vec<String>)
        ensures
            r@.map_values(|n: String| n@) == self.names_view(),
    {
        let mut out: Vec<String> = Vec::with_capacity(self.names.len());
        let mut i: usize = 0;
        while i < self.names.len()
            invariant
                i <= self.names@.len(),
                out@.len() == i,
                forall|j: int| 0 <= j < i ==> out@[j]@ == self.names@[j]@,
            decreases self.names@.len() - i,
        {
            out.push(self.names[i].clone());
            i += 1;
        }
        assert(out@.map_values(|n: String| n@) =~= self.names_view());
        out
    }
}

} // verus!

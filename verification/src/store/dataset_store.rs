//! The store of datasets of one database.

use crate::dataset::{Dataset, DatasetId, DatasetView};
use crate::ids::{id_position, lemma_id_position, IdMap};
use crate::names::{name_position, NameMap};
use vstd::prelude::*;
use vstd::string::StringExecFns;

verus! {

/// What can go wrong in the dataset store.
#[derive(Debug)]
pub enum DatasetStoreError {
    DatasetNotFound(DatasetId),
    NameAlreadyExists(String),
    InvalidDataset(String),
}

impl DatasetStoreError {
    /// The error as text.
    pub open spec fn text(&self) -> Seq<char> {
        match self {
            DatasetStoreError::DatasetNotFound(id) => "Dataset not found: DatasetId("@
                + crate::text::decimal(id.0 as nat) + ")"@,
            DatasetStoreError::NameAlreadyExists(name) => "Dataset name already exists: "@ + name@,
            DatasetStoreError::InvalidDataset(text) => "Invalid dataset: "@ + text@,
        }
    }

    /// The error as text: see [`DatasetStoreError::text`].
    pub fn message(&self) -> (r: String)
        ensures
            r@ == self.text(),
    {
        match self {
            DatasetStoreError::DatasetNotFound(id) => {
                let mut out = "Dataset not found: DatasetId(".to_owned();
                out.append(crate::text::decimal_text_long(id.0).as_str());
                out.append(")");
                out
            },
            DatasetStoreError::NameAlreadyExists(name) => {
                let mut out = "Dataset name already exists: ".to_owned();
                out.append(name.as_str());
                out
            },
            DatasetStoreError::InvalidDataset(text) => {
                let mut out = "Invalid dataset: ".to_owned();
                out.append(text.as_str());
                out
            },
        }
    }
}

/// Datasets by identifier, and identifiers by name. A name stands for at
/// most one dataset.
#[derive(Debug)]
pub struct DatasetStore {
    next_id: u64,
    datasets: IdMap<Dataset>,
    names: NameMap<DatasetId>,
}

impl DatasetStore {
    /// The identifier handed out next.
    pub closed spec fn next_id(&self) -> u64 {
        self.next_id
    }

    /// The identifiers of the datasets, in the order of insertion.
    pub closed spec fn ids(&self) -> Seq<u64> {
        self.datasets.ids_view()
    }

    /// The datasets, each at the position of its identifier.
    pub closed spec fn items(&self) -> Seq<Dataset> {
        self.datasets.items_view()
    }

    /// The names, in the order of insertion.
    pub closed spec fn names(&self) -> Seq<Seq<char>> {
        self.names.names_view()
    }

    /// The identifier each name stands for.
    pub closed spec fn named_ids(&self) -> Seq<DatasetId> {
        self.names.items_view()
    }

    /// There is one dataset per identifier and one identifier per name.
    pub open spec fn wf(&self) -> bool {
        self.ids().len() == self.items().len() && self.names().len() == self.named_ids().len()
    }

    /// The dataset under an identifier, if any.
    pub open spec fn by_id(&self, id: DatasetId) -> Option<Dataset> {
        match id_position(self.ids(), id.0) {
            Some(i) => Some(self.items()[i]),
            None => None,
        }
    }

    /// The identifier a name stands for, if any.
    pub open spec fn id_of(&self, name: Seq<char>) -> Option<DatasetId> {
        match name_position(self.names(), name) {
            Some(k) => Some(self.named_ids()[k]),
            None => None,
        }
    }

    /// The dataset a name stands for, if any.
    pub open spec fn by_name(&self, name: Seq<char>) -> Option<Dataset> {
        match self.id_of(name) {
            Some(id) => self.by_id(id),
            None => None,
        }
    }

    /// An empty store.
    pub fn new() -> (r: Self)
        ensures
            r.next_id() == 0,
            r.ids().len() == 0,
            r.items().len() == 0,
            r.names().len() == 0,
            r.named_ids().len() == 0,
    {
        DatasetStore { next_id: 0, datasets: IdMap::new(), names: NameMap::new() }
    }

    /// Hands out the next identifier. After `u64::MAX` the count starts
    /// again at zero.
    pub fn gen_id(&mut self) -> (r: DatasetId)
        ensures
            r == DatasetId(old(self).next_id()),
            final(self).next_id() == old(self).next_id().wrapping_add(1),
            final(self).ids() == old(self).ids(),
            final(self).items() == old(self).items(),
            final(self).names() == old(self).names(),
            final(self).named_ids() == old(self).named_ids(),
    {
        let id = DatasetId(self.next_id);
        self.next_id = self.next_id.wrapping_add(1);
        id
    }

    /// Stores a dataset under its identifier, with or without a name, and
    /// gives the dataset that name. A dataset already under the identifier
    /// is replaced. Fails, leaving the store as it was, when the name is
    /// taken.
    pub fn insert(&mut self, dataset: Dataset, name: Option<String>) -> (r: Result<
        DatasetId,
        DatasetStoreError,
    >)
        ensures
            final(self).next_id() == old(self).next_id(),
            match name {
                Some(n) => if name_position(old(self).names(), n@) is Some {
                    r == Err::<DatasetId, DatasetStoreError>(
                        DatasetStoreError::NameAlreadyExists(n),
                    ) && final(self).ids() == old(self).ids() && final(self).items() == old(self).items() && final(self).names() == old(self).names() && final(self).named_ids() == old(self).named_ids()
                } else {
                    r == Ok::<DatasetId, DatasetStoreError>(dataset@.id) && final(self).names()
                        == old(self).names().push(n@) && final(self).named_ids() == old(self).named_ids().push(dataset@.id) && (final(self).by_id(
                        dataset@.id,
                    ) matches Some(stored) && stored@ == (DatasetView {
                        name: Some(n@),
                        ..dataset@
                    })) && forall|other: DatasetId|
                        other != dataset@.id ==> (#[trigger] final(self).by_id(other)) == old(self).by_id(other)
                },
                None => r == Ok::<DatasetId, DatasetStoreError>(dataset@.id) && final(self).names() == old(self).names() && final(self).named_ids() == old(self).named_ids() && (final(self).by_id(dataset@.id) matches Some(stored) && stored@
                    == (DatasetView { name: None, ..dataset@ })) && forall|other: DatasetId|
                    other != dataset@.id ==> (#[trigger] final(self).by_id(other)) == old(self).by_id(other),
            },
    {
        let id = dataset.id();
        let mut dataset = dataset;
        let count = self.datasets.len();
        let ghost old_ids = self.datasets.ids_view();
        let ghost old_items = self.datasets.items_view();
        match name {
            Some(n) => {
                if self.names.contains(n.as_str()) {
                    return Err(DatasetStoreError::NameAlreadyExists(n));
                }
                dataset.set_name(Some(n.clone()));
                self.datasets.insert(id.0, dataset);
                self.names.insert(n, id);
            },
            None => {
                dataset.set_name(None);
                self.datasets.insert(id.0, dataset);
            },
        }
        proof {
            let new_ids = self.datasets.ids_view();
            let new_items = self.datasets.items_view();
            lemma_id_position(old_ids, id.0);
            lemma_id_position(new_ids, id.0);
            assert(new_ids == ids_after_insert(old_ids, id.0));
            assert forall|other: DatasetId| other != id implies (#[trigger] self.by_id(other)) == old(self).by_id(other) by {
                assert(other.0 != id.0);
                lemma_id_position(old_ids, other.0);
                lemma_id_position(new_ids, other.0);
                lemma_ids_after_insert(old_ids, id.0, other.0);
                match id_position(old_ids, other.0) {
                    Some(p) => {
                        assert(new_items[p] == old_items[p]);
                    },
                    None => {},
                }
            }
            lemma_ids_after_insert(old_ids, id.0, id.0);
        }
        Ok(id)
    }

    /// The dataset under an identifier.
    pub fn get(&self, id: DatasetId) -> (r: Result<&Dataset, DatasetStoreError>)
        ensures
            match self.by_id(id) {
                Some(d) => r matches Ok(found) && *found == d,
                None => r == Err::<&Dataset, DatasetStoreError>(
                    DatasetStoreError::DatasetNotFound(id),
                ),
            },
    {
        match self.datasets.get(id.0) {
            Some(d) => Ok(d),
            None => Err(DatasetStoreError::DatasetNotFound(id)),
        }
    }

    /// The dataset under an identifier, for changing it in place.
    pub fn get_mut(&mut self, id: DatasetId) -> (r: Result<&mut Dataset, DatasetStoreError>)
        ensures
            old(self).wf(),
            final(self).next_id() == old(self).next_id(),
            final(self).ids() == old(self).ids(),
            final(self).names() == old(self).names(),
            final(self).named_ids() == old(self).named_ids(),
            match id_position(old(self).ids(), id.0) {
                Some(i) => r matches Ok(found) && *found == old(self).items()[i] && final(self).items() == old(self).items().update(i, *final(found)),
                None => r matches Err(e) && e == DatasetStoreError::DatasetNotFound(id) && final(self).items() == old(self).items(),
            },
    {
        let count = self.names.len();
        match self.datasets.position(id.0) {
            Some(i) => Ok(self.datasets.item_at_mut(i)),
            None => Err(DatasetStoreError::DatasetNotFound(id)),
        }
    }

    /// The dataset a name stands for.
    pub fn get_by_name(&self, name: &str) -> (r: Result<&Dataset, DatasetStoreError>)
        ensures
            match self.id_of(name@) {
                Some(id) => match self.by_id(id) {
                    Some(d) => r matches Ok(found) && *found == d,
                    None => r == Err::<&Dataset, DatasetStoreError>(
                        DatasetStoreError::DatasetNotFound(id),
                    ),
                },
                None => r matches Err(e) && (e matches DatasetStoreError::InvalidDataset(text) && text@
                    == unknown_name_text(name@)),
            },
    {
        match self.names.get(name) {
            Some(id) => self.get(*id),
            None => Err(DatasetStoreError::InvalidDataset(not_found_text(name))),
        }
    }

    /// The dataset a name stands for, for changing it in place.
    pub fn get_mut_by_name(&mut self, name: &str) -> (r: Result<&mut Dataset, DatasetStoreError>)
        ensures
            old(self).wf(),
            final(self).next_id() == old(self).next_id(),
            final(self).ids() == old(self).ids(),
            final(self).names() == old(self).names(),
            final(self).named_ids() == old(self).named_ids(),
            match old(self).id_of(name@) {
                Some(id) => match id_position(old(self).ids(), id.0) {
                    Some(i) => r matches Ok(found) && *found == old(self).items()[i] && final(self).items() == old(self).items().update(i, *final(found)),
                    None => r matches Err(e) && e == DatasetStoreError::DatasetNotFound(id)
                        && final(self).items() == old(self).items(),
                },
                None => r matches Err(e) && (e matches DatasetStoreError::InvalidDataset(text) && text@
                    == unknown_name_text(name@)) && final(self).items() == old(self).items(),
            },
    {
        let count = self.datasets.len();
        let found = match self.names.get(name) {
            Some(id) => Some(*id),
            None => None,
        };
        match found {
            Some(id) => self.get_mut(id),
            None => Err(DatasetStoreError::InvalidDataset(not_found_text(name))),
        }
    }

    /// Takes the dataset under an identifier out of the store, and with it
    /// the name it bears.
    pub fn remove(&mut self, id: DatasetId) -> (r: Result<Dataset, DatasetStoreError>)
        ensures
            final(self).next_id() == old(self).next_id(),
            match id_position(old(self).ids(), id.0) {
                Some(i) => r matches Ok(d) && d == old(self).items()[i] && final(self).ids() == old(self).ids().remove(i) && final(self).items() == old(self).items().remove(i),
                None => r matches Err(e) && e == DatasetStoreError::DatasetNotFound(id) && final(self).ids() == old(self).ids() && final(self).items() == old(self).items() && final(self).names() == old(self).names(),
            },
    {
        match self.datasets.remove(id.0) {
            Some(dataset) => {
                match &dataset.metadata().name {
                    Some(name) => {
                        self.names.remove(name.as_str());
                    },
                    None => {},
                }
                Ok(dataset)
            },
            None => Err(DatasetStoreError::DatasetNotFound(id)),
        }
    }

    /// Takes the dataset a name stands for out of the store, and the name
    /// with it.
    pub fn remove_by_name(&mut self, name: &str) -> (r: Result<Dataset, DatasetStoreError>)
        ensures
            final(self).next_id() == old(self).next_id(),
            match name_position(old(self).names(), name@) {
                Some(k) => final(self).names() == old(self).names().remove(k) && final(self).named_ids() == old(self).named_ids().remove(k) && match id_position(
                    old(self).ids(),
                    old(self).named_ids()[k].0,
                ) {
                    Some(i) => r matches Ok(d) && d == old(self).items()[i] && final(self).ids()
                        == old(self).ids().remove(i) && final(self).items() == old(self).items().remove(i),
                    None => r matches Err(e) && e == DatasetStoreError::DatasetNotFound(
                        old(self).named_ids()[k],
                    ) && final(self).ids() == old(self).ids(),
                },
                None => r matches Err(e) && (e matches DatasetStoreError::InvalidDataset(text) && text@
                    == unknown_name_text(name@)) && final(self).names() == old(self).names() && final(self).ids() == old(self).ids() && final(self).items() == old(self).items(),
            },
    {
        match self.names.remove(name) {
            Some(id) => match self.datasets.remove(id.0) {
                Some(dataset) => Ok(dataset),
                None => Err(DatasetStoreError::DatasetNotFound(id)),
            },
            None => Err(DatasetStoreError::InvalidDataset(not_found_text(name))),
        }
    }

    /// The identifiers of the datasets, in the order of insertion.
    pub fn list_ids(&self) -> (r: Vec<DatasetId>)
        ensures
            r@.len() == self.ids().len(),
            forall|i: int| 0 <= i < r@.len() ==> (#[trigger] r@[i]) == DatasetId(self.ids()[i]),
    {
        let keys = self.datasets.keys();
        let mut out: Vec<DatasetId> = Vec::with_capacity(keys.len());
        let mut i: usize = 0;
        while i < keys.len()
            invariant
                i <= keys@.len(),
                out@.len() == i,
                forall|j: int| 0 <= j < i ==> (#[trigger] out@[j]) == DatasetId(keys@[j]),
            decreases keys@.len() - i,
        {
            out.push(DatasetId(keys[i]));
            i += 1;
        }
        out
    }

    /// The names, in the order of insertion.
    pub fn list_names(&self) -> (r: Vec<String>)
        ensures
            r@.map_values(|n: String| n@) == self.names(),
    {
        self.names.keys()
    }

    /// Number of datasets.
    pub fn len(&self) -> (r: usize)
        ensures
            r == self.ids().len(),
    {
        self.datasets.len()
    }

    /// Whether there are no datasets.
    pub fn is_empty(&self) -> (r: bool)
        ensures
            r == (self.ids().len() == 0),
    {
        self.datasets.len() == 0
    }
}

/// What is said when no dataset bears a name: the name.
pub open spec fn unknown_name_text(name: Seq<char>) -> Seq<char> {
    "Dataset '"@ + name + "' not found"@
}

/// Text of the failure when no dataset bears a name: see
/// [`unknown_name_text`].
fn not_found_text(name: &str) -> (r: String)
    ensures
        r@ == unknown_name_text(name@),
{
    let mut text = "Dataset '".to_owned();
    text.append(name);
    text.append("' not found");
    text
}

/// The identifiers after an insertion.
pub open spec fn ids_after_insert(ids: Seq<u64>, id: u64) -> Seq<u64> {
    if id_position(ids, id) is Some {
        ids
    } else {
        ids.push(id)
    }
}

/// The position of an identifier after an insertion: that of the inserted
/// one is where it was or at the end, that of any other where it was.
pub proof fn lemma_ids_after_insert(ids: Seq<u64>, inserted: u64, id: u64)
    ensures
        id != inserted ==> id_position(ids_after_insert(ids, inserted), id) == id_position(
            ids,
            id,
        ),
        id == inserted ==> id_position(ids_after_insert(ids, inserted), id) == Some(
            match id_position(ids, inserted) {
                Some(k) => k,
                None => ids.len() as int,
            },
        ),
{
    if id_position(ids, inserted) is None {
        assert(ids.push(inserted).drop_last() =~= ids);
    }
}

} // verus!

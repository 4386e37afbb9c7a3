//! Secondary indices over one column of a dataset.
//!
//! A hash index maps each value to the rows that hold it; a vector index
//! keeps the vectors of a column and finds the rows most similar to a
//! query.

use crate::engine::kernels::{cosine, dot, l2_norm};
use crate::float;
use crate::float::is_zero;
use crate::sort::{as_ints, sort_positions, sorted_order};
use crate::tensor::Tensor;
use crate::value::{copy_numbers, views_of, Value, ValueView};
use vstd::prelude::*;

verus! {

/// The kinds of index.
#[derive(Debug, Clone, Copy, PartialEq, Eq, Structural)]
pub enum IndexType {
    /// Exact match.
    Hash,
    /// Similarity of vectors.
    Vector,
}

/// The first position of a value among the keys, if it is there.
pub open spec fn first_position(keys: Seq<ValueView>, value: ValueView) -> Option<int>
    decreases keys.len(),
{
    if keys.len() == 0 {
        None
    } else {
        match first_position(keys.drop_last(), value) {
            Some(g) => Some(g),
            None => if keys.last() == value {
                Some(keys.len() - 1)
            } else {
                None
            },
        }
    }
}

/// A position found is a position of the keys and holds the value; when
/// none is found, no key is the value.
pub proof fn lemma_first_position(keys: Seq<ValueView>, value: ValueView)
    ensures
        match first_position(keys, value) {
            Some(g) => 0 <= g < keys.len() && keys[g] == value && forall|h: int|
                0 <= h < g ==> keys[h] != value,
            None => forall|h: int| 0 <= h < keys.len() ==> keys[h] != value,
        },
    decreases keys.len(),
{
    if keys.len() > 0 {
        let front = keys.drop_last();
        lemma_first_position(front, value);
        assert forall|h: int| 0 <= h < front.len() implies front[h] == keys[h] by {}
        match first_position(front, value) {
            Some(g) => {
                assert(front[g] == keys[g]);
                assert forall|h: int| 0 <= h < g implies keys[h] != value by {
                    assert(front[h] == keys[h]);
                }
            },
            None => {
                assert forall|h: int| 0 <= h < front.len() implies keys[h] != value by {
                    assert(front[h] == keys[h]);
                }
            },
        }
    }
}

/// An index for exact lookups: each value that was added, with the rows it
/// was added for in the order of adding.
#[derive(Debug)]
pub struct HashIndex {
    keys: Vec<Value>,
    rows: Vec<Vec<usize>>,
}

impl HashIndex {
    #[verifier::type_invariant]
    spec fn inv(&self) -> bool {
        self.keys@.len() == self.rows@.len()
    }

    /// The rows that hold the given value, in the order in which they were
    /// added.
    pub closed spec fn row_ids(&self, value: ValueView) -> Seq<usize> {
        match first_position(views_of(self.keys@), value) {
            Some(g) => if g < self.rows@.len() {
                self.rows@[g]@
            } else {
                Seq::empty()
            },
            None => Seq::empty(),
        }
    }

    /// An index without entries.
    pub fn new() -> (r: Self)
        ensures
            forall|value: ValueView| (#[trigger] r.row_ids(value)) == Seq::<usize>::empty(),
    {
        HashIndex { keys: Vec::new(), rows: Vec::new() }
    }

    /// The position of a value among the keys.
    fn find(&self, value: &Value) -> (r: Option<usize>)
        ensures
            match first_position(views_of(self.keys@), value@) {
                Some(g) => r == Some(g as usize) && g < self.keys@.len(),
                None => r is None,
            },
            r matches Some(g) ==> g < self.keys@.len() && first_position(
                views_of(self.keys@),
                value@,
            ) == Some(g as int),
    {
        let mut g: usize = 0;
        proof {
            assert(views_of(self.keys@).take(0) =~= Seq::<ValueView>::empty());
        }
        while g < self.keys.len()
            invariant
                g <= self.keys@.len(),
                first_position(views_of(self.keys@).take(g as int), value@) is None,
            decreases self.keys@.len() - g,
        {
            let ghost more = views_of(self.keys@).take(g + 1);
            proof {
                assert(more.drop_last() =~= views_of(self.keys@).take(g as int));
                assert(more.last() == self.keys@[g as int]@);
            }
            if self.keys[g] == *value {
                proof {
                    lemma_first_position_extends(views_of(self.keys@), value@, g + 1);
                    lemma_first_position(views_of(self.keys@), value@);
                }
                return Some(g);
            }
            g += 1;
        }
        proof {
            assert(views_of(self.keys@).take(g as int) =~= views_of(self.keys@));
        }
        None
    }

    /// Records that the row holds the value. Always succeeds.
    pub fn add(&mut self, row_id: usize, value: &Value) -> (r: Result<(), String>)
        ensures
            r is Ok,
            final(self).row_ids(value@) == old(self).row_ids(value@).push(row_id),
            forall|other: ValueView|
                other != value@ ==> (#[trigger] final(self).row_ids(other)) == old(self).row_ids(
                    other,
                ),
    {
        proof {
            use_type_invariant(&*self);
            lemma_first_position(views_of(self.keys@), value@);
        }
        let ghost old_keys = views_of(self.keys@);
        let ghost old_rows = self.rows@;
        let found = self.find(value);
        let mut taken = HashIndex { keys: Vec::new(), rows: Vec::new() };
        core::mem::swap(self, &mut taken);
        let HashIndex { keys: mut keys, rows: mut rows } = taken;
        match found {
            Some(g) => {
                let mut ids: Vec<usize> = Vec::new();
                core::mem::swap(&mut rows[g], &mut ids);
                ids.push(row_id);
                core::mem::swap(&mut rows[g], &mut ids);
                proof {
                    assert(rows@[g as int]@ == old_rows[g as int]@.push(row_id));
                    assert forall|h: int| 0 <= h < rows@.len() && h != g implies rows@[h]
                        == old_rows[h] by {}
                }
                *self = HashIndex { keys, rows };
                proof {
                    assert forall|other: ValueView| other != value@ implies (#[trigger] self.row_ids(
                        other,
                    )) == old(self).row_ids(other) by {
                        lemma_first_position(old_keys, other);
                    }
                }
            },
            None => {
                let mut ids: Vec<usize> = Vec::new();
                ids.push(row_id);
                keys.push(value.clone());
                rows.push(ids);
                *self = HashIndex { keys, rows };
                proof {
                    let new_keys = views_of(self.keys@);
                    assert(new_keys =~= old_keys.push(value@));
                    assert(new_keys.drop_last() =~= old_keys);
                    assert(self.rows@[old_keys.len() as int]@ =~= Seq::<usize>::empty().push(
                        row_id,
                    ));
                    assert forall|other: ValueView| other != value@ implies (#[trigger] self.row_ids(
                        other,
                    )) == old(self).row_ids(other) by {
                        lemma_first_position(old_keys, other);
                        match first_position(old_keys, other) {
                            Some(h) => {
                                assert(self.rows@[h] == old_rows[h]);
                            },
                            None => {},
                        }
                    }
                }
            },
        }
        Ok(())
    }

    /// The rows that hold the given value, in the order in which they were
    /// added; none when the value was never added.
    pub fn lookup(&self, value: &Value) -> (r: Result<Vec<usize>, String>)
        ensures
            r matches Ok(ids) && ids@ == self.row_ids(value@),
    {
        proof {
            use_type_invariant(self);
        }
        match self.find(value) {
            Some(g) => {
                let source = &self.rows[g];
                let mut ids: Vec<usize> = Vec::with_capacity(source.len());
                let mut i: usize = 0;
                while i < source.len()
                    invariant
                        i <= source@.len(),
                        ids@ == source@.take(i as int),
                    decreases source@.len() - i,
                {
                    ids.push(source[i]);
                    proof {
                        assert(source@.take(i + 1) =~= source@.take(i as int).push(
                            source@[i as int],
                        ));
                    }
                    i += 1;
                }
                proof {
                    assert(source@.take(source@.len() as int) =~= source@);
                }
                Ok(ids)
            },
            None => Ok(Vec::new()),
        }
    }

    /// A hash index cannot search by similarity: always fails.
    pub fn search(&self, query: &Tensor, k: usize) -> (r: Result<Vec<(usize, u32)>, String>)
        ensures
            r is Err,
    {
        Err("HashIndex does not support vector similarity search".to_owned())
    }

    /// The kind of this index.
    pub fn index_type(&self) -> (r: IndexType)
        ensures
            r == IndexType::Hash,
    {
        IndexType::Hash
    }
}

/// A position found among the first keys is found among all of them.
pub proof fn lemma_first_position_extends(keys: Seq<ValueView>, value: ValueView, n: int)
    requires
        0 <= n <= keys.len(),
        first_position(keys.take(n), value) is Some,
    ensures
        first_position(keys, value) == first_position(keys.take(n), value),
    decreases keys.len() - n,
{
    if n < keys.len() {
        let more = keys.take(n + 1);
        assert(more.drop_last() =~= keys.take(n));
        lemma_first_position_extends(keys, value, n + 1);
    } else {
        assert(keys.take(n) =~= keys);
    }
}

impl Clone for HashIndex {
    fn clone(&self) -> (r: Self)
        ensures
            forall|value: ValueView| (#[trigger] r.row_ids(value)) == self.row_ids(value),
    {
        proof {
            use_type_invariant(self);
        }
        let keys = crate::tuple::copy_values(&self.keys);
        let mut rows: Vec<Vec<usize>> = Vec::with_capacity(self.rows.len());
        let mut g: usize = 0;
        while g < self.rows.len()
            invariant
                g <= self.rows@.len(),
                rows@.len() == g,
                forall|h: int| 0 <= h < g ==> (#[trigger] rows@[h])@ == self.rows@[h]@,
            decreases self.rows@.len() - g,
        {
            let source = &self.rows[g];
            let mut ids: Vec<usize> = Vec::with_capacity(source.len());
            let mut i: usize = 0;
            while i < source.len()
                invariant
                    i <= source@.len(),
                    ids@ == source@.take(i as int),
                decreases source@.len() - i,
            {
                ids.push(source[i]);
                proof {
                    assert(source@.take(i + 1) =~= source@.take(i as int).push(source@[i as int]));
                }
                i += 1;
            }
            proof {
                assert(source@.take(source@.len() as int) =~= source@);
            }
            rows.push(ids);
            g += 1;
        }
        proof {
            assert(views_of(keys@).len() == keys@.len());
            assert(views_of(self.keys@).len() == self.keys@.len());
        }
        let copy = HashIndex { keys, rows };
        proof {
            assert forall|value: ValueView| (#[trigger] copy.row_ids(value)) == self.row_ids(
                value,
            ) by {
                lemma_first_position(views_of(self.keys@), value);
            }
        }
        copy
    }
}

/// The similarity a vector index gives two vectors of one length: their
/// cosine similarity, or zero when either norm is a zero of either sign.
pub open spec fn similarity(a: Seq<u32>, b: Seq<u32>) -> u32 {
    if is_zero(l2_norm(a)) || is_zero(l2_norm(b)) {
        float::ZERO
    } else {
        cosine(a, b)
    }
}

/// An index for similarity search: the vectors that were added, each with
/// its row, in the order of adding. The search compares the query with
/// every vector.
#[derive(Debug)]
pub struct VectorIndex {
    pub(crate) row_ids: Vec<usize>,
    pub(crate) vectors: Vec<Vec<u32>>,
}

/// Mathematical model of a [`VectorIndex`]: the rows and their vectors.
pub struct VectorIndexView {
    pub row_ids: Seq<usize>,
    pub vectors: Seq<Seq<u32>>,
}

impl View for VectorIndex {
    type V = VectorIndexView;

    closed spec fn view(&self) -> VectorIndexView {
        VectorIndexView { row_ids: self.row_ids@, vectors: self.vectors.deep_view() }
    }
}

impl VectorIndexView {
    /// There is one vector per row.
    pub open spec fn wf(self) -> bool {
        self.row_ids.len() == self.vectors.len()
    }

    /// The score of every entry against a query, as values to sort by.
    pub open spec fn scores(self, query: Seq<u32>) -> Seq<ValueView> {
        Seq::new(self.vectors.len(), |i: int| ValueView::Float(similarity(query, self.vectors[i])))
    }

    /// Whether a query can be compared with every entry: it is a vector,
    /// and every entry has its length. Any query fits an empty index.
    pub open spec fn fits(self, query_dims: Seq<usize>, query: Seq<u32>) -> bool {
        forall|i: int|
            0 <= i < self.vectors.len() ==> query_dims.len() == 1 && (
            #[trigger] self.vectors[i]).len() == query.len()
    }

    /// The `k` best entries for a query, as pairs of row and score, best
    /// first; entries of equal score stay in the order of adding.
    pub open spec fn best(self, query: Seq<u32>, k: nat) -> Seq<(usize, u32)> {
        let order = sorted_order(self.scores(query), false, self.vectors.len());
        let count = if k < order.len() {
            k
        } else {
            order.len()
        };
        Seq::new(
            count,
            |i: int| (self.row_ids[order[i]], similarity(query, self.vectors[order[i]])),
        )
    }
}

impl VectorIndex {
    #[verifier::type_invariant]
    spec fn inv(&self) -> bool {
        self.row_ids@.len() == self.vectors@.len()
    }

    /// An index without entries.
    pub fn new() -> (r: Self)
        ensures
            r@ == (VectorIndexView { row_ids: Seq::empty(), vectors: Seq::empty() }),
    {
        let index = VectorIndex { row_ids: Vec::new(), vectors: Vec::new() };
        proof {
            assert(index.row_ids@ =~= Seq::<usize>::empty());
            assert(index.vectors.deep_view() =~= Seq::<Seq<u32>>::empty());
        }
        index
    }

    /// Records the vector of a row. `Null` is passed over; any value that
    /// is no vector is refused and leaves the index as it was.
    pub fn add(&mut self, row_id: usize, value: &Value) -> (r: Result<(), String>)
        ensures
            final(self)@.wf(),
            match value@ {
                ValueView::Vector(data) => r is Ok && final(self)@ == (VectorIndexView {
                    row_ids: old(self)@.row_ids.push(row_id),
                    vectors: old(self)@.vectors.push(data),
                }),
                ValueView::Null => r is Ok && final(self)@ == old(self)@,
                _ => r is Err && final(self)@ == old(self)@,
            },
    {
        proof {
            use_type_invariant(&*self);
        }
        match value {
            Value::Vector(data) => {
                let ghost before = self.vectors.deep_view();
                let mut taken = VectorIndex { row_ids: Vec::new(), vectors: Vec::new() };
                core::mem::swap(self, &mut taken);
                let VectorIndex { row_ids: mut row_ids, vectors: mut vectors } = taken;
                row_ids.push(row_id);
                let ghost old_vectors = vectors@;
                vectors.push(copy_numbers(data));
                proof {
                    assert forall|j: int| 0 <= j < vectors@.len() implies vectors.deep_view()[j]
                        == before.push(data@)[j] by {
                        assert(vectors.deep_view()[j] == vectors@[j]@);
                        if j < old_vectors.len() {
                            assert(before[j] == old_vectors[j]@);
                        }
                    }
                    assert(vectors.deep_view() =~= before.push(data@));
                }
                *self = VectorIndex { row_ids, vectors };
                Ok(())
            },
            Value::Null => Ok(()),
            Value::Bool(_) => Err("Cannot index Boolean as Vector".to_owned()),
            Value::Int(_) => Err("Cannot index Int as Vector".to_owned()),
            Value::String(_) => Err("Cannot index String as Vector".to_owned()),
            Value::Float(_) => Err("Cannot index Float as Vector".to_owned()),
            Value::Matrix(_) => Err("Cannot index Matrix as Vector".to_owned()),
        }
    }

    /// A vector index cannot look up by value: always fails.
    pub fn lookup(&self, value: &Value) -> (r: Result<Vec<usize>, String>)
        ensures
            r is Err,
    {
        Err("VectorIndex does not support exact value lookup".to_owned())
    }

    /// The similarity of two vectors of one length: see [`similarity`].
    fn cosine_similarity(a: &[u32], b: &[u32]) -> (r: u32)
        requires
            a@.len() == b@.len(),
        ensures
            r == similarity(a@, b@),
    {
        let dot_ab = dot_product(a, b);
        let norm_a = float::square_root(dot_product(a, a));
        let norm_b = float::square_root(dot_product(b, b));
        if float::zero(norm_a) || float::zero(norm_b) {
            return float::ZERO;
        }
        float::quotient(dot_ab, float::product(norm_a, norm_b))
    }

    /// The `k` entries most similar to the query, as pairs of row and
    /// score, best first. Fails when the query cannot be compared with
    /// some entry.
    pub fn search(&self, query: &Tensor, k: usize) -> (r: Result<Vec<(usize, u32)>, String>)
        ensures
            r is Ok <==> self@.fits(query@.dims, query@.data),
            r matches Ok(found) ==> found@ == self@.best(query@.data, k as nat),
    {
        proof {
            use_type_invariant(self);
        }
        let data = query.data_ref();
        let rank = query.rank();
        let mut scores: Vec<Value> = Vec::with_capacity(self.vectors.len());
        let mut i: usize = 0;
        while i < self.vectors.len()
            invariant
                data@ == query@.data,
                rank == query@.dims.len(),
                i <= self.vectors@.len(),
                scores@.len() == i,
                forall|j: int|
                    0 <= j < i ==> rank == 1 && (#[trigger] self.vectors@[j])@.len() == data@.len(),
                forall|j: int|
                    0 <= j < i ==> (#[trigger] scores@[j])@ == ValueView::Float(
                        similarity(data@, self.vectors@[j]@),
                    ),
            decreases self.vectors@.len() - i,
        {
            let entry = &self.vectors[i];
            if rank != 1 || entry.len() != data.len() {
                proof {
                    assert(self@.vectors[i as int] == self.vectors@[i as int]@);
                }
                return Err("Shape mismatch between query and indexed vector".to_owned());
            }
            scores.push(Value::Float(Self::cosine_similarity(data, entry.as_slice())));
            i += 1;
        }
        proof {
            assert forall|j: int| 0 <= j < self@.vectors.len() implies query@.dims.len() == 1 && (
            #[trigger] self@.vectors[j]).len() == query@.data.len() by {
                assert(self@.vectors[j] == self.vectors@[j]@);
            }
            assert(views_of(scores@) =~= self@.scores(data@)) by {
                assert forall|j: int| 0 <= j < scores@.len() implies views_of(scores@)[j]
                    == self@.scores(data@)[j] by {
                    assert(self@.vectors[j] == self.vectors@[j]@);
                }
            }
        }
        let order = sort_positions(&scores, false);
        let count = if k < order.len() {
            k
        } else {
            order.len()
        };
        let mut found: Vec<(usize, u32)> = Vec::with_capacity(count);
        let mut n: usize = 0;
        while n < count
            invariant
                count <= order@.len(),
                order@.len() == self.vectors@.len(),
                self.row_ids@.len() == self.vectors@.len(),
                scores@.len() == self.vectors@.len(),
                forall|j: int| 0 <= j < order@.len() ==> #[trigger] order@[j] < scores@.len(),
                forall|j: int|
                    0 <= j < scores@.len() ==> (#[trigger] scores@[j])@ == ValueView::Float(
                        similarity(data@, self.vectors@[j]@),
                    ),
                n <= count,
                found@.len() == n,
                forall|j: int|
                    0 <= j < n ==> (#[trigger] found@[j]) == (
                        self.row_ids@[order@[j] as int],
                        similarity(data@, self.vectors@[order@[j] as int]@),
                    ),
            decreases count - n,
        {
            let position = order[n];
            let score = match &scores[position] {
                Value::Float(bits) => *bits,
                _ => float::ZERO,
            };
            found.push((self.row_ids[position], score));
            n += 1;
        }
        proof {
            let expected = self@.best(query@.data, k as nat);
            assert(found@.len() == expected.len());
            assert forall|j: int| 0 <= j < found@.len() implies found@[j] == expected[j] by {
                assert(as_ints(order@)[j] == order@[j] as int);
                assert(self@.vectors[order@[j] as int] == self.vectors@[order@[j] as int]@);
            }
            assert(found@ =~= expected);
        }
        Ok(found)
    }

    /// The kind of this index.
    pub fn index_type(&self) -> (r: IndexType)
        ensures
            r == IndexType::Vector,
    {
        IndexType::Vector
    }
}

/// The dot product of two slices of one length.
fn dot_product(left: &[u32], right: &[u32]) -> (r: u32)
    requires
        left@.len() == right@.len(),
    ensures
        r == dot(left@, right@),
{
    let mut total: u32 = float::ZERO;
    let mut i: usize = 0;
    while i < left.len()
        invariant
            left@.len() == right@.len(),
            i <= left@.len(),
            total == dot(left@.take(i as int), right@.take(i as int)),
        decreases left@.len() - i,
    {
        proof {
            assert(left@.take(i + 1).drop_last() =~= left@.take(i as int));
            assert(right@.take(i + 1).drop_last() =~= right@.take(i as int));
        }
        total = float::sum(total, float::product(left[i], right[i]));
        i += 1;
    }
    proof {
        assert(left@.take(i as int) =~= left@);
        assert(right@.take(i as int) =~= right@);
    }
    total
}

impl Clone for VectorIndex {
    fn clone(&self) -> (r: Self)
        ensures
            r@ == self@,
    {
        proof {
            use_type_invariant(self);
        }
        let mut row_ids: Vec<usize> = Vec::with_capacity(self.row_ids.len());
        let mut i: usize = 0;
        while i < self.row_ids.len()
            invariant
                i <= self.row_ids@.len(),
                row_ids@ == self.row_ids@.take(i as int),
            decreases self.row_ids@.len() - i,
        {
            row_ids.push(self.row_ids[i]);
            proof {
                assert(self.row_ids@.take(i + 1) =~= self.row_ids@.take(i as int).push(
                    self.row_ids@[i as int],
                ));
            }
            i += 1;
        }
        proof {
            assert(self.row_ids@.take(self.row_ids@.len() as int) =~= self.row_ids@);
        }
        let vectors = crate::value::copy_matrix(&self.vectors);
        proof {
            assert(vectors@.len() == vectors.deep_view().len());
            assert(self.vectors@.len() == self.vectors.deep_view().len());
        }
        VectorIndex { row_ids, vectors }
    }
}

/// An index of either kind.
#[derive(Debug)]
pub enum Index {
    Hash(HashIndex),
    Vector(VectorIndex),
}

impl Clone for Index {
    fn clone(&self) -> (r: Self)
        ensures
            r.index_kind() == self.index_kind(),
    {
        match self {
            Index::Hash(index) => Index::Hash(index.clone()),
            Index::Vector(index) => Index::Vector(index.clone()),
        }
    }
}

impl Index {
    /// The kind of this index.
    pub open spec fn index_kind(&self) -> IndexType {
        match self {
            Index::Hash(_) => IndexType::Hash,
            Index::Vector(_) => IndexType::Vector,
        }
    }

    /// Whether the index takes in a value: a hash index takes every
    /// value, a vector index only vectors and `Null`.
    pub open spec fn accepts(&self, value: ValueView) -> bool {
        match self {
            Index::Hash(_) => true,
            Index::Vector(_) => value is Vector || value is Null,
        }
    }

    /// Computes [`Index::accepts`].
    pub fn takes(&self, value: &Value) -> (r: bool)
        ensures
            r == self.accepts(value@),
    {
        match self {
            Index::Hash(_) => true,
            Index::Vector(_) => match value {
                Value::Vector(_) => true,
                Value::Null => true,
                _ => false,
            },
        }
    }

    /// Records that the row holds the value. Succeeds exactly when the
    /// index takes the value in; otherwise the index stays as it was.
    pub fn add(&mut self, row_id: usize, value: &Value) -> (r: Result<(), String>)
        ensures
            r is Ok <==> old(self).accepts(value@),
            final(self).index_kind() == old(self).index_kind(),
            match (*old(self), *final(self)) {
                (Index::Hash(before), Index::Hash(after)) => after.row_ids(value@)
                    == before.row_ids(value@).push(row_id) && forall|other: ValueView|
                    other != value@ ==> (#[trigger] after.row_ids(other)) == before.row_ids(other),
                (Index::Vector(before), Index::Vector(after)) => after@.wf() && match value@ {
                    ValueView::Vector(data) => after@ == (VectorIndexView {
                        row_ids: before@.row_ids.push(row_id),
                        vectors: before@.vectors.push(data),
                    }),
                    _ => after@ == before@,
                },
                _ => false,
            },
    {
        match self {
            Index::Hash(index) => index.add(row_id, value),
            Index::Vector(index) => index.add(row_id, value),
        }
    }

    /// The rows that hold the given value. Fails on a vector index.
    pub fn lookup(&self, value: &Value) -> (r: Result<Vec<usize>, String>)
        ensures
            match self {
                Index::Hash(index) => r matches Ok(ids) && ids@ == index.row_ids(value@),
                Index::Vector(_) => r is Err,
            },
    {
        match self {
            Index::Hash(index) => index.lookup(value),
            Index::Vector(index) => index.lookup(value),
        }
    }

    /// The `k` entries most similar to the query. Fails on a hash index.
    pub fn search(&self, query: &Tensor, k: usize) -> (r: Result<Vec<(usize, u32)>, String>)
        ensures
            match self {
                Index::Hash(_) => r is Err,
                Index::Vector(index) => (r is Ok <==> index@.fits(query@.dims, query@.data)) && (
                r matches Ok(found) ==> found@ == index@.best(query@.data, k as nat)),
            },
    {
        match self {
            Index::Hash(index) => index.search(query, k),
            Index::Vector(index) => index.search(query, k),
        }
    }

    /// The kind of this index.
    pub fn index_type(&self) -> (r: IndexType)
        ensures
            r == self.index_kind(),
    {
        match self {
            Index::Hash(_) => IndexType::Hash,
            Index::Vector(_) => IndexType::Vector,
        }
    }
}

} // verus!

//! Datasets: rows under one schema, with derived statistics, secondary
//! indices and lazily computed columns.

use crate::index::{HashIndex, Index, IndexType, VectorIndex, VectorIndexView};
use crate::names::{lemma_name_position, name_position, NameMap};
use crate::query::evaluate::{evaluate, evaluate_expression, evaluate_predicate, passes};
use crate::query::logical::{Expr, ExprView};
use crate::sort::{as_ints, sort_positions, sorted_order};
use crate::stats::{column, compute_stats, rows_view, stats_derived, ColumnStats};
use crate::tensor::{another_handle, same_allocation};
use crate::tuple::{
    lemma_position_of, position_of, schema_accepts, Field, FieldView, Schema, Tuple, TupleView,
};
use crate::value::{views_of, Value, ValueType, ValueView};
use std::sync::Arc;
use vstd::prelude::*;
use vstd::string::StringExecFns;

verus! {

/// Identifier of a dataset inside one store.
#[derive(Debug, Clone, Copy, PartialEq, Eq, Hash, Structural)]
pub struct DatasetId(pub u64);

/// Calls `chrono::Utc::now` and `DateTime::timestamp_micros`: the time of
/// the call in microseconds since the Unix epoch. Nothing is promised of
/// the result, which depends on the clock.
#[verifier::external_body]
pub(crate) fn now_micros() -> i64 {
    chrono::Utc::now().timestamp_micros()
}

/// What is known about a dataset besides its rows.
#[derive(Debug)]
pub struct DatasetMetadata {
    pub name: Option<String>,
    /// Time of creation, in microseconds since the Unix epoch.
    pub created_at: i64,
    /// Time of the last refresh, in microseconds since the Unix epoch.
    pub updated_at: i64,
    pub version: u32,
    pub row_count: usize,
    /// Statistics of each column, by its name.
    pub column_stats: NameMap<ColumnStats>,
    /// Free-form entries.
    pub extra: NameMap<String>,
}

impl DatasetMetadata {
    /// The name as a sequence of characters.
    pub open spec fn name_view(&self) -> Option<Seq<char>> {
        match self.name {
            Some(n) => Some(n@),
            None => None,
        }
    }

    /// Metadata of a dataset without rows or statistics, created now.
    pub fn new(name: Option<String>) -> (r: Self)
        ensures
            r.name == name,
            r.version == 1,
            r.row_count == 0,
            r.column_stats.names_view().len() == 0,
            r.extra.names_view().len() == 0,
            r.extra.wf(),
    {
        let now = now_micros();
        DatasetMetadata {
            name,
            created_at: now,
            updated_at: now,
            version: 1,
            row_count: 0,
            column_stats: NameMap::new(),
            extra: NameMap::new(),
        }
    }

    /// Refreshes the row count and the statistics of every column from
    /// the given rows, and notes the time.
    pub fn update_stats(&mut self, schema: &Schema, rows: &Vec<Tuple>)
        ensures
            final(self).row_count == rows@.len(),
            stats_derived(&final(self).column_stats, schema@, rows_view(rows@)),
            final(self).name == old(self).name,
            final(self).version == old(self).version,
            final(self).created_at == old(self).created_at,
            final(self).extra == old(self).extra,
    {
        self.row_count = rows.len();
        self.updated_at = now_micros();
        self.column_stats = compute_stats(schema, rows);
    }
}

/// The rows that hold the given value in a column, in ascending order.
pub open spec fn positions(values: Seq<Option<ValueView>>, value: ValueView) -> Seq<usize>
    decreases values.len(),
{
    if values.len() == 0 {
        Seq::empty()
    } else {
        let before = positions(values.drop_last(), value);
        if values.last() == Some(value) {
            before.push((values.len() - 1) as usize)
        } else {
            before
        }
    }
}

/// The rows that hold a vector in a column, each with its vector, in
/// ascending order.
pub open spec fn vector_entries(values: Seq<Option<ValueView>>) -> VectorIndexView
    decreases values.len(),
{
    if values.len() == 0 {
        VectorIndexView { row_ids: Seq::empty(), vectors: Seq::empty() }
    } else {
        let before = vector_entries(values.drop_last());
        match values.last() {
            Some(ValueView::Vector(data)) => VectorIndexView {
                row_ids: before.row_ids.push((values.len() - 1) as usize),
                vectors: before.vectors.push(data),
            },
            _ => before,
        }
    }
}

/// Whether an index agrees with the values of its column: a hash index
/// gives for each value the rows that hold it, a vector index holds the
/// vectors of the column.
pub open spec fn index_consistent(index: Index, values: Seq<Option<ValueView>>) -> bool {
    match index {
        Index::Hash(hash) => forall|value: ValueView|
            (#[trigger] hash.row_ids(value)) == positions(values, value),
        Index::Vector(vectors) => vectors@ == vector_entries(values),
    }
}

/// A hash index that agrees with a column lists, for a value, the rows of
/// the column that hold it.
pub proof fn lemma_hash_lookup(hash: HashIndex, values: Seq<Option<ValueView>>, value: ValueView)
    requires
        index_consistent(Index::Hash(hash), values),
    ensures
        hash.row_ids(value) == positions(values, value),
{
    let index = Index::Hash(hash);
    assert(index->Hash_0 == hash);
}

/// Whether every index agrees with the values of its column.
pub open spec fn indices_consistent(indices: &NameMap<Index>, rows: Seq<TupleView>) -> bool {
    indices.wf() && forall|k: int|
        0 <= k < indices.names_view().len() ==> index_consistent(
            #[trigger] indices.items_view()[k],
            column(rows, indices.names_view()[k]),
        )
}

/// Whether every index stands under the name of a column of the schema.
pub open spec fn indices_named(indices: &NameMap<Index>, schema: Seq<FieldView>) -> bool {
    forall|k: int|
        0 <= k < indices.names_view().len() ==> position_of(
            schema,
            #[trigger] indices.names_view()[k],
        ) is Some
}

/// Whether the schema has a column of that name and the column is lazy.
pub open spec fn is_lazy_column(schema: Seq<FieldView>, name: Seq<char>) -> bool {
    position_of(schema, name) matches Some(i) && schema[i].is_lazy
}

/// Whether every expression of the registry belongs to a lazy column of
/// the schema.
pub open spec fn lazy_registered(lazy: &NameMap<Expr>, schema: Seq<FieldView>) -> bool {
    lazy.wf() && forall|k: int|
        0 <= k < lazy.names_view().len() ==> is_lazy_column(schema, #[trigger] lazy.names_view()[k])
}

/// Whether every row is bound to the given schema.
pub open spec fn rows_share(rows: Seq<TupleView>, schema: Seq<FieldView>) -> bool {
    forall|i: int| 0 <= i < rows.len() ==> (#[trigger] rows[i]).schema == schema && rows[i].wf()
}

/// A table: rows under one schema.
#[derive(Debug)]
pub struct Dataset {
    id: DatasetId,
    schema: Arc<Schema>,
    rows: Vec<Tuple>,
    metadata: DatasetMetadata,
    indices: NameMap<Index>,
    lazy_expressions: NameMap<Expr>,
}

/// Mathematical model of a [`Dataset`].
pub struct DatasetView {
    pub id: DatasetId,
    pub schema: Seq<FieldView>,
    pub rows: Seq<TupleView>,
    pub name: Option<Seq<char>>,
    /// The names of the columns that have an expression registered.
    pub lazy_names: Seq<Seq<char>>,
    /// The expression of each such column.
    pub lazy_exprs: Seq<ExprView>,
    /// The names of the columns that have an index.
    pub index_names: Seq<Seq<char>>,
    /// The index of each such column.
    pub indices: Seq<Index>,
}

impl DatasetView {
    /// The expression registered for a column, if any.
    pub open spec fn lazy_expr(self, name: Seq<char>) -> Option<ExprView> {
        match name_position(self.lazy_names, name) {
            Some(k) => Some(self.lazy_exprs[k]),
            None => None,
        }
    }

    /// The index of a column, if any.
    pub open spec fn index(self, name: Seq<char>) -> Option<Index> {
        match name_position(self.index_names, name) {
            Some(k) => Some(self.indices[k]),
            None => None,
        }
    }

    /// The values of a column, row by row: for a lazy column the value of
    /// its expression on each row, for any other column the stored
    /// values; `None` when the schema has no such column or a lazy column
    /// has no expression registered.
    pub open spec fn column_values(self, name: Seq<char>) -> Option<Seq<ValueView>> {
        match position_of(self.schema, name) {
            Some(place) => if self.schema[place].is_lazy {
                match self.lazy_expr(name) {
                    Some(expr) => Some(
                        Seq::new(self.rows.len(), |i: int| evaluate(expr, self.rows[i])),
                    ),
                    None => None,
                }
            } else {
                Some(Seq::new(self.rows.len(), |i: int| self.rows[i].values[place]))
            },
            None => None,
        }
    }

    /// What holds of every dataset: every row is bound to the schema of
    /// the dataset and accepted by it, every registered expression belongs
    /// to a lazy column, and every index agrees with its column.
    pub open spec fn wf(self) -> bool {
        &&& rows_share(self.rows, self.schema)
        &&& self.lazy_names.len() == self.lazy_exprs.len()
        &&& self.index_names.len() == self.indices.len()
        &&& forall|k: int|
            0 <= k < self.lazy_names.len() ==> is_lazy_column(
                self.schema,
                #[trigger] self.lazy_names[k],
            )
        &&& forall|k: int|
            0 <= k < self.index_names.len() ==> index_consistent(
                #[trigger] self.indices[k],
                column(self.rows, self.index_names[k]),
            )
        &&& forall|k: int|
            0 <= k < self.index_names.len() ==> position_of(
                self.schema,
                #[trigger] self.index_names[k],
            ) is Some
    }
}

/// The views of the expressions of a registry.
pub open spec fn registry_exprs(lazy: &NameMap<Expr>) -> Seq<ExprView> {
    lazy.items_view().map_values(|e: Expr| e@)
}

impl View for Dataset {
    type V = DatasetView;

    closed spec fn view(&self) -> DatasetView {
        DatasetView {
            id: self.id,
            schema: self.schema@,
            rows: rows_view(self.rows@),
            name: self.metadata.name_view(),
            lazy_names: self.lazy_expressions.names_view(),
            lazy_exprs: registry_exprs(&self.lazy_expressions),
            index_names: self.indices.names_view(),
            indices: self.indices.items_view(),
        }
    }
}

/// A copy of a list of rows.
pub fn copy_rows(source: &Vec<Tuple>) -> (r: Vec<Tuple>)
    ensures
        rows_view(r@) == rows_view(source@),
{
    let mut out: Vec<Tuple> = Vec::with_capacity(source.len());
    let mut i: usize = 0;
    while i < source.len()
        invariant
            i <= source@.len(),
            out@.len() == i,
            forall|j: int| 0 <= j < i ==> out@[j]@ == source@[j]@,
        decreases source@.len() - i,
    {
        out.push(source[i].clone());
        i += 1;
    }
    assert(rows_view(out@) =~= rows_view(source@));
    out
}

/// A copy of a registry of expressions.
pub fn copy_registry(source: &NameMap<Expr>) -> (r: NameMap<Expr>)
    ensures
        r.wf(),
        r.names_view() == source.names_view(),
        registry_exprs(&r) == registry_exprs(source),
{
    let mut out: NameMap<Expr> = NameMap::new();
    let count = source.len();
    let mut k: usize = 0;
    while k < count
        invariant
            source.wf(),
            count == source.names_view().len(),
            k <= count,
            out.wf(),
            out.names_view() == source.names_view().take(k as int),
            registry_exprs(&out) == registry_exprs(source).take(k as int),
        decreases count - k,
    {
        let ghost before_names = out.names_view();
        let ghost before_exprs = registry_exprs(&out);
        proof {
            lemma_name_position(before_names, source.names_view()[k as int]);
            if name_position(before_names, source.names_view()[k as int]) is Some {
                let j = name_position(before_names, source.names_view()[k as int]).unwrap();
                assert(source.names_view()[j] == before_names[j]);
            }
        }
        out.insert(source.name_at(k).clone(), source.item_at(k).clone());
        proof {
            assert(source.names_view().take(k + 1) =~= before_names.push(
                source.names_view()[k as int],
            ));
            assert(registry_exprs(&out) =~= before_exprs.push(source.items_view()[k as int]@));
            assert(registry_exprs(source).take(k + 1) =~= before_exprs.push(
                source.items_view()[k as int]@,
            ));
        }
        k += 1;
    }
    proof {
        assert(source.names_view().take(count as int) =~= source.names_view());
        assert(registry_exprs(source).take(count as int) =~= registry_exprs(source));
    }
    out
}

impl Dataset {
    #[verifier::type_invariant]
    spec fn inv(&self) -> bool {
        &&& rows_share(rows_view(self.rows@), self.schema@)
        &&& self.metadata.row_count == self.rows@.len()
        &&& stats_derived(&self.metadata.column_stats, self.schema@, rows_view(self.rows@))
        &&& lazy_registered(&self.lazy_expressions, self.schema@)
        &&& indices_consistent(&self.indices, rows_view(self.rows@))
        &&& indices_named(&self.indices, self.schema@)
    }

    /// Puts a dataset together from parts that hold together, deriving the
    /// row count and the statistics.
    fn assemble(
        id: DatasetId,
        schema: Arc<Schema>,
        rows: Vec<Tuple>,
        shell: DatasetMetadata,
        indices: NameMap<Index>,
        lazy_expressions: NameMap<Expr>,
    ) -> (r: Self)
        requires
            rows_share(rows_view(rows@), schema@),
            lazy_registered(&lazy_expressions, schema@),
            indices_consistent(&indices, rows_view(rows@)),
            indices_named(&indices, schema@),
        ensures
            r@ == (DatasetView {
                id,
                schema: schema@,
                rows: rows_view(rows@),
                name: shell.name_view(),
                lazy_names: lazy_expressions.names_view(),
                lazy_exprs: registry_exprs(&lazy_expressions),
                index_names: indices.names_view(),
                indices: indices.items_view(),
            }),
            r@.wf(),
    {
        let mut metadata = shell;
        metadata.update_stats(&schema, &rows);
        Dataset { id, schema, rows, metadata, indices, lazy_expressions }
    }

    /// A copy of the metadata with the same name, times, version and
    /// extras; its statistics are derived anew when a dataset is put
    /// together.
    fn shell(&self) -> (r: DatasetMetadata)
        ensures
            r.name_view() == self@.name,
    {
        let mut extra: NameMap<String> = NameMap::new();
        let count = self.metadata.extra.len();
        let mut k: usize = 0;
        while k < count
            invariant
                count == self.metadata.extra.names_view().len(),
                self.metadata.extra.wf(),
                k <= count,
            decreases count - k,
        {
            extra.insert(
                self.metadata.extra.name_at(k).clone(),
                self.metadata.extra.item_at(k).clone(),
            );
            k += 1;
        }
        DatasetMetadata {
            name: match &self.metadata.name {
                Some(n) => Some(n.clone()),
                None => None,
            },
            created_at: self.metadata.created_at,
            updated_at: self.metadata.updated_at,
            version: self.metadata.version,
            row_count: 0,
            column_stats: NameMap::new(),
            extra,
        }
    }

    /// An empty dataset.
    pub fn new(id: DatasetId, schema: Arc<Schema>, name: Option<String>) -> (r: Self)
        ensures
            r@ == (DatasetView {
                id,
                schema: schema@,
                rows: Seq::empty(),
                name: match name {
                    Some(n) => Some(n@),
                    None => None,
                },
                lazy_names: Seq::empty(),
                lazy_exprs: Seq::empty(),
                index_names: Seq::empty(),
                indices: Seq::empty(),
            }),
            r@.wf(),
    {
        let rows: Vec<Tuple> = Vec::new();
        let indices: NameMap<Index> = NameMap::new();
        let lazy: NameMap<Expr> = NameMap::new();
        proof {
            assert(rows_view(rows@) =~= Seq::<TupleView>::empty());
            assert(registry_exprs(&lazy) =~= Seq::<ExprView>::empty());
            assert(lazy.names_view() =~= Seq::<Seq<char>>::empty());
            assert(indices.names_view() =~= Seq::<Seq<char>>::empty());
            assert(indices.items_view() =~= Seq::<Index>::empty());
        }
        Self::assemble(id, schema, rows, DatasetMetadata::new(name), indices, lazy)
    }

    /// A dataset of the given rows, of which the caller says whether all
    /// of them hold the schema handle of the dataset. Succeeds exactly
    /// when they do and every row is bound to an equal schema.
    pub fn from_rows(
        id: DatasetId,
        schema: Arc<Schema>,
        rows: Vec<Tuple>,
        name: Option<String>,
        share_handle: bool,
    ) -> (r: Result<Self, String>)
        ensures
            r is Ok <==> share_handle && forall|i: int|
                0 <= i < rows@.len() ==> (#[trigger] rows@[i])@.schema == schema@,
            r matches Ok(d) ==> d@ == (DatasetView {
                id,
                schema: schema@,
                rows: rows_view(rows@),
                name: match name {
                    Some(n) => Some(n@),
                    None => None,
                },
                lazy_names: Seq::empty(),
                lazy_exprs: Seq::empty(),
                index_names: Seq::empty(),
                indices: Seq::empty(),
            }) && d@.wf(),
    {
        if !share_handle {
            return Err("Row has incompatible schema".to_owned());
        }
        let mut i: usize = 0;
        while i < rows.len()
            invariant
                i <= rows@.len(),
                forall|j: int| 0 <= j < i ==> (#[trigger] rows@[j])@.schema == schema@ && rows@[j]@.wf(),
            decreases rows@.len() - i,
        {
            if !rows[i].schema().same_as(&schema) {
                let mut text = "Row ".to_owned();
                text.append(crate::text::decimal_text(i).as_str());
                text.append(" has incompatible schema");
                return Err(text);
            }
            i += 1;
        }
        let indices: NameMap<Index> = NameMap::new();
        let lazy: NameMap<Expr> = NameMap::new();
        proof {
            assert(registry_exprs(&lazy) =~= Seq::<ExprView>::empty());
            assert(lazy.names_view() =~= Seq::<Seq<char>>::empty());
            assert(indices.names_view() =~= Seq::<Seq<char>>::empty());
            assert(indices.items_view() =~= Seq::<Index>::empty());
        }
        Ok(Self::assemble(id, schema, rows, DatasetMetadata::new(name), indices, lazy))
    }

    /// A dataset of the given rows. Every row must hold the very schema
    /// handle of the dataset: a row bound to another allocation is
    /// refused, even if the schemas are equal. Without rows there is
    /// nothing to refuse, and the dataset is made; a row under another
    /// schema is always refused; of rows under an equal schema the
    /// handles decide.
    pub fn with_rows(id: DatasetId, schema: Arc<Schema>, rows: Vec<Tuple>, name: Option<String>)
        -> (r: Result<Self, String>)
        ensures
            rows@.len() == 0 ==> r is Ok,
            r matches Ok(d) ==> d@ == (DatasetView {
                id,
                schema: schema@,
                rows: rows_view(rows@),
                name: match name {
                    Some(n) => Some(n@),
                    None => None,
                },
                lazy_names: Seq::empty(),
                lazy_exprs: Seq::empty(),
                index_names: Seq::empty(),
                indices: Seq::empty(),
            }) && d@.wf(),
            (exists|i: int| 0 <= i < rows@.len() && (#[trigger] rows@[i])@.schema != schema@)
                ==> r is Err,
    {
        let mut all_share = true;
        let mut i: usize = 0;
        while i < rows.len()
            invariant
                i <= rows@.len(),
                i == 0 ==> all_share,
            decreases rows@.len() - i,
        {
            if !same_allocation(rows[i].schema(), &schema) {
                all_share = false;
            }
            i += 1;
        }
        Self::from_rows(id, schema, rows, name, all_share)
    }

    /// The identifier.
    pub fn id(&self) -> (r: DatasetId)
        ensures
            r == self@.id,
    {
        self.id
    }

    /// The schema handle.
    pub fn schema(&self) -> (r: &Arc<Schema>)
        ensures
            r@ == self@.schema,
    {
        &self.schema
    }

    /// The rows. Every row is bound to the schema of the dataset.
    pub fn rows(&self) -> (r: &Vec<Tuple>)
        ensures
            rows_view(r@) == self@.rows,
            r@.len() == self@.rows.len(),
            self@.wf(),
    {
        proof {
            use_type_invariant(self);
            self.lemma_view_wf();
        }
        &self.rows
    }

    /// The metadata. Its row count is the number of rows, and its
    /// statistics are those derived from the rows.
    pub fn metadata(&self) -> (r: &DatasetMetadata)
        ensures
            r.extra == self.extras(),
            r.row_count == self@.rows.len(),
            r.name_view() == self@.name,
            stats_derived(&r.column_stats, self@.schema, self@.rows),
    {
        proof {
            use_type_invariant(self);
        }
        &self.metadata
    }

    /// The invariant of the type, stated of the model.
    proof fn lemma_view_wf(&self)
        requires
            self.inv(),
        ensures
            self@.wf(),
    {
        assert(self@.lazy_exprs.len() == self@.lazy_names.len());
    }

    /// Number of rows.
    pub fn len(&self) -> (r: usize)
        ensures
            r == self@.rows.len(),
    {
        self.rows.len()
    }

    /// Whether there are no rows.
    pub fn is_empty(&self) -> (r: bool)
        ensures
            r == (self@.rows.len() == 0),
    {
        self.rows.len() == 0
    }
}

/// The column after one more row is the column before with the value of
/// that row behind it.
pub proof fn lemma_column_push(rows: Seq<TupleView>, row: TupleView, name: Seq<char>)
    ensures
        column(rows.push(row), name) == column(rows, name).push(row.get(name)),
{
    assert(column(rows.push(row), name) =~= column(rows, name).push(row.get(name)));
}

/// The rows picked by a list of positions, in the order of the list;
/// positions past the end pick nothing.
pub open spec fn picked(rows: Seq<TupleView>, ids: Seq<usize>) -> Seq<TupleView>
    decreases ids.len(),
{
    if ids.len() == 0 {
        Seq::empty()
    } else {
        let before = picked(rows, ids.drop_last());
        if ids.last() < rows.len() {
            before.push(rows[ids.last() as int])
        } else {
            before
        }
    }
}

/// The rows at which a list of marks holds `true`, in order.
pub open spec fn marked(rows: Seq<TupleView>, marks: Seq<bool>) -> Seq<TupleView>
    decreases rows.len(),
{
    if rows.len() == 0 {
        Seq::empty()
    } else {
        let before = marked(rows.drop_last(), marks.drop_last());
        if marks.last() {
            before.push(rows.last())
        } else {
            before
        }
    }
}

/// The mark of each row under a predicate.
pub open spec fn marks_of(rows: Seq<TupleView>, predicate: ExprView) -> Seq<bool> {
    Seq::new(rows.len(), |i: int| passes(predicate, rows[i]))
}

/// The values of a row at the given positions.
pub open spec fn projected(values: Seq<ValueView>, places: Seq<int>) -> Seq<ValueView> {
    Seq::new(places.len(), |j: int| values[places[j]])
}

/// The fields of a schema at the given positions.
pub open spec fn projected_fields(schema: Seq<FieldView>, places: Seq<int>) -> Seq<FieldView> {
    Seq::new(places.len(), |j: int| schema[places[j]])
}

/// The position in the schema of each name of a list; meaningful when the
/// schema has every name.
pub open spec fn places_of(schema: Seq<FieldView>, names: Seq<Seq<char>>) -> Seq<int> {
    Seq::new(names.len(), |j: int| position_of(schema, names[j]).unwrap())
}

/// Free-form entries before and after a value was put under a key: a
/// key that is there keeps its place and gets the value, a new key goes
/// to the end; every other entry stays.
pub open spec fn entry_set(
    before: &NameMap<String>,
    after: &NameMap<String>,
    key: Seq<char>,
    value: Seq<char>,
) -> bool {
    match name_position(before.names_view(), key) {
        Some(i) => after.names_view() == before.names_view() && after.items_view().len()
            == before.items_view().len() && after.items_view()[i]@ == value && forall|j: int|
            0 <= j < before.items_view().len() && j != i ==> #[trigger] after.items_view()[j]
                == before.items_view()[j],
        None => after.names_view() == before.names_view().push(key) && after.items_view().len()
            == before.items_view().len() + 1 && after.items_view().drop_last()
            == before.items_view() && after.items_view().last()@ == value,
    }
}

/// What is said of a column that a schema lacks: its name.
pub open spec fn missing_column_text(name: Seq<char>) -> Seq<char> {
    "Column '"@ + name + "' not found"@
}

/// The place of the first name from `from` on for which a schema has no
/// column, or the number of names when it has one for each.
pub open spec fn first_missing(schema: Seq<FieldView>, names: Seq<Seq<char>>, from: int) -> int
    decreases names.len() - from,
{
    if 0 <= from < names.len() && position_of(schema, names[from]) is Some {
        first_missing(schema, names, from + 1)
    } else {
        from
    }
}

/// Whether the schema has a column for every name of a list.
pub open spec fn has_all(schema: Seq<FieldView>, names: Seq<Seq<char>>) -> bool {
    forall|j: int| 0 <= j < names.len() ==> position_of(schema, #[trigger] names[j]) is Some
}

/// The names of a list of texts.
pub open spec fn texts_view(names: Seq<&str>) -> Seq<Seq<char>> {
    names.map_values(|n: &str| n@)
}

/// The kinds of a list of indices.
pub open spec fn kinds_of(indices: Seq<Index>) -> Seq<IndexType> {
    indices.map_values(|x: Index| x.index_kind())
}

/// Whether every index takes in the value a row holds in its column.
pub open spec fn indices_accept(names: Seq<Seq<char>>, indices: Seq<Index>, row: TupleView) -> bool {
    forall|k: int|
        0 <= k < names.len() ==> (row.get(#[trigger] names[k]) matches Some(value) ==> indices[k].accepts(
            value,
        ))
}

/// An index that agrees with a column agrees with the column after one
/// more row once that row was added to it.
pub proof fn lemma_index_after_add(
    before: Index,
    after: Index,
    values: Seq<Option<ValueView>>,
    added: Option<ValueView>,
)
    requires
        index_consistent(before, values),
        values.len() <= usize::MAX,
        match added {
            Some(value) => before.accepts(value) && match (before, after) {
                (Index::Hash(b), Index::Hash(a)) => a.row_ids(value) == b.row_ids(value).push(
                    values.len() as usize,
                ) && forall|other: ValueView|
                    other != value ==> (#[trigger] a.row_ids(other)) == b.row_ids(other),
                (Index::Vector(b), Index::Vector(a)) => match value {
                    ValueView::Vector(data) => a@ == (VectorIndexView {
                        row_ids: b@.row_ids.push(values.len() as usize),
                        vectors: b@.vectors.push(data),
                    }),
                    _ => a@ == b@,
                },
                _ => false,
            },
            None => after == before,
        },
    ensures
        index_consistent(after, values.push(added)),
{
    let more = values.push(added);
    assert(more.drop_last() =~= values);
    assert(more.last() == added);
    match after {
        Index::Hash(a) => {
            assert forall|value: ValueView| (#[trigger] a.row_ids(value)) == positions(more, value) by {}
        },
        Index::Vector(a) => {},
    }
}

impl Dataset {
    /// The rows themselves.
    pub closed spec fn row_list(&self) -> Seq<Tuple> {
        self.rows@
    }
    /// The rows at the given positions, in the order given; positions past
    /// the end are passed over.
    pub fn get_rows_by_ids(&self, row_ids: &[usize]) -> (r: Vec<Tuple>)
        ensures
            rows_view(r@) == picked(self@.rows, row_ids@),
            rows_share(rows_view(r@), self@.schema),
    {
        proof {
            use_type_invariant(self);
        }
        let mut out: Vec<Tuple> = Vec::with_capacity(row_ids.len());
        let mut i: usize = 0;
        proof {
            assert(row_ids@.take(0) =~= Seq::<usize>::empty());
            assert(rows_view(out@) =~= Seq::<TupleView>::empty());
        }
        while i < row_ids.len()
            invariant
                self.inv(),
                i <= row_ids@.len(),
                rows_view(out@) == picked(rows_view(self.rows@), row_ids@.take(i as int)),
                rows_share(rows_view(out@), self.schema@),
            decreases row_ids@.len() - i,
        {
            let ghost before = rows_view(out@);
            proof {
                assert(row_ids@.take(i + 1).drop_last() =~= row_ids@.take(i as int));
                assert(row_ids@.take(i + 1).last() == row_ids@[i as int]);
            }
            let id = row_ids[i];
            if id < self.rows.len() {
                out.push(self.rows[id].clone());
                proof {
                    assert(rows_view(out@) =~= before.push(self.rows@[id as int]@));
                    assert(rows_view(self.rows@)[id as int] == self.rows@[id as int]@);
                }
            }
            i += 1;
        }
        proof {
            assert(row_ids@.take(row_ids@.len() as int) =~= row_ids@);
        }
        out
    }

    /// Appends a row, of which the caller says whether it holds the schema
    /// handle of the dataset. Succeeds exactly when it does, the row is
    /// bound to an equal schema, and every index takes in the value the
    /// row holds in its column; then every index is brought up to date and
    /// the statistics are refreshed. Otherwise the dataset stays as it
    /// was.
    pub fn append_row(&mut self, row: Tuple, shares_handle: bool) -> (r: Result<(), String>)
        ensures
            r is Ok <==> shares_handle && row@.schema == old(self)@.schema && indices_accept(
                old(self)@.index_names,
                old(self)@.indices,
                row@,
            ),
            r is Ok ==> final(self)@.rows == old(self)@.rows.push(row@) && final(self)@.id == old(self)@.id && final(self)@.schema == old(self)@.schema && final(self)@.name == old(self)@.name && final(self)@.lazy_names == old(self)@.lazy_names && final(self)@.lazy_exprs
                == old(self)@.lazy_exprs && final(self)@.index_names == old(self)@.index_names
                && kinds_of(final(self)@.indices) == kinds_of(old(self)@.indices),
            r is Err ==> final(self)@ == old(self)@,
            final(self)@.wf(),
    {
        proof {
            use_type_invariant(&*self);
            self.lemma_view_wf();
        }
        if !shares_handle {
            return Err("Row schema does not match dataset schema".to_owned());
        }
        if !row.schema().same_as(&self.schema) {
            return Err("Row schema does not match dataset schema".to_owned());
        }
        let count = self.indices.len();
        let mut k: usize = 0;
        while k < count
            invariant
                self.inv(),
                count == self.indices.names_view().len(),
                k <= count,
                forall|j: int|
                    0 <= j < k ==> (row@.get(#[trigger] self.indices.names_view()[j]) matches Some(
                        value,
                    ) ==> self.indices.items_view()[j].accepts(value)),
            decreases count - k,
        {
            match row.get(self.indices.name_at(k).as_str()) {
                Some(value) => {
                    if !self.indices.item_at(k).takes(value) {
                        return Err("Index does not take the value of the row".to_owned());
                    }
                },
                None => {},
            }
            k += 1;
        }
        let ghost old_rows = rows_view(self.rows@);
        let row_id = self.rows.len();
        let mut taken = Dataset::new(self.id, another_handle(&self.schema), None);
        core::mem::swap(self, &mut taken);
        proof {
            use_type_invariant(&taken);
        }
        let Dataset { id, schema, rows: mut rows, metadata, indices: mut indices, lazy_expressions } =
            taken;
        let ghost old_indices = indices.items_view();
        let ghost new_rows = old_rows.push(row@);
        let mut k: usize = 0;
        while k < count
            invariant
                indices.wf(),
                count == indices.names_view().len(),
                indices.names_view() == old(self)@.index_names,
                old_indices == old(self)@.indices,
                indices.items_view().len() == count,
                kinds_of(indices.items_view()) == kinds_of(old_indices),
                old_rows.len() == row_id,
                new_rows == old_rows.push(row@),
                indices_accept(old(self)@.index_names, old_indices, row@),
                k <= count,
                forall|j: int|
                    0 <= j < k ==> index_consistent(
                        #[trigger] indices.items_view()[j],
                        column(new_rows, indices.names_view()[j]),
                    ),
                forall|j: int|
                    k <= j < count ==> indices.items_view()[j] == old_indices[j]
                        && index_consistent(
                        #[trigger] indices.items_view()[j],
                        column(old_rows, indices.names_view()[j]),
                    ),
            decreases count - k,
        {
            let ghost name = indices.names_view()[k as int];
            let ghost before = indices.items_view();
            let found = row.get(indices.name_at(k).as_str());
            proof {
                lemma_column_push(old_rows, row@, name);
            }
            match found {
                Some(value) => {
                    let index = indices.item_at_mut(k);
                    let ghost was = *index;
                    let outcome = index.add(row_id, value);
                    proof {
                        assert(was == before[k as int]);
                        let now = indices.items_view()[k as int];
                        lemma_index_after_add(was, now, column(old_rows, name), Some(value@));
                        assert(kinds_of(indices.items_view()) =~= kinds_of(old_indices));
                    }
                },
                None => {
                    proof {
                        lemma_index_after_add(
                            before[k as int],
                            before[k as int],
                            column(old_rows, name),
                            None,
                        );
                    }
                },
            }
            k += 1;
        }
        let ghost pushed = row@;
        rows.push(row);
        proof {
            assert(rows_view(rows@) =~= new_rows);
        }
        *self = Self::assemble(id, schema, rows, metadata, indices, lazy_expressions);
        Ok(())
    }

    /// Appends a row. The row must hold the very schema handle of the
    /// dataset; a row bound to another allocation is refused even if the
    /// schemas are equal. See [`Dataset::append_row`] for the rest.
    pub fn add_row(&mut self, row: Tuple) -> (r: Result<(), String>)
        ensures
            r is Ok ==> row@.schema == old(self)@.schema && indices_accept(
                old(self)@.index_names,
                old(self)@.indices,
                row@,
            ) && final(self)@.rows == old(self)@.rows.push(row@) && final(self)@.id == old(self)@.id && final(self)@.schema == old(self)@.schema && final(self)@.name == old(self)@.name && final(self)@.lazy_names == old(self)@.lazy_names && final(self)@.lazy_exprs
                == old(self)@.lazy_exprs && final(self)@.index_names == old(self)@.index_names
                && kinds_of(final(self)@.indices) == kinds_of(old(self)@.indices),
            r is Err ==> final(self)@ == old(self)@,
            final(self)@.wf(),
    {
        let shares = same_allocation(row.schema(), &self.schema);
        self.append_row(row, shares)
    }
}

/// Whether a list of marks holds, for each row, what the predicate gave
/// for it.
pub open spec fn marks_fit<F: Fn(&Tuple) -> bool>(predicate: F, rows: Seq<Tuple>, marks: Seq<bool>)
    -> bool {
    marks.len() == rows.len() && forall|i: int|
        0 <= i < marks.len() ==> call_ensures(predicate, (&rows[i],), #[trigger] marks[i])
}

/// Whether a list of rows holds, for each row, what the function gave for
/// it.
pub open spec fn outputs_fit<F: Fn(&Tuple) -> Tuple>(f: F, rows: Seq<Tuple>, outs: Seq<Tuple>)
    -> bool {
    outs.len() == rows.len() && forall|i: int|
        0 <= i < outs.len() ==> call_ensures(f, (&rows[i],), #[trigger] outs[i])
}

/// The expression a registry holds under a name, if any.
pub open spec fn registered(lazy: &NameMap<Expr>, name: Seq<char>) -> Option<ExprView> {
    if lazy.has(name) {
        Some(lazy.item(name)@)
    } else {
        None
    }
}

/// The rows in the order given by a list of positions.
pub open spec fn arranged(rows: Seq<TupleView>, order: Seq<int>) -> Seq<TupleView> {
    Seq::new(order.len(), |i: int| rows[order[i]])
}

/// The values of a column by its position, row by row.
pub open spec fn stored_column(rows: Seq<TupleView>, place: int) -> Seq<ValueView> {
    Seq::new(rows.len(), |i: int| rows[i].values[place])
}

impl Dataset {
    /// What the model says of the registry is what the registry holds.
    proof fn lemma_lazy_expr(&self, name: Seq<char>)
        requires
            self.inv(),
        ensures
            self@.lazy_expr(name) == registered(&self.lazy_expressions, name),
    {
        lemma_name_position(self.lazy_expressions.names_view(), name);
    }

    /// A dataset of the given rows with the identifier, name, schema and
    /// registry of this one, and without indices.
    fn derive(&self, rows: Vec<Tuple>) -> (r: Self)
        requires
            rows_share(rows_view(rows@), self@.schema),
        ensures
            r@ == (DatasetView {
                rows: rows_view(rows@),
                index_names: Seq::empty(),
                indices: Seq::empty(),
                ..self@
            }),
            r@.wf(),
    {
        proof {
            use_type_invariant(self);
        }
        let indices: NameMap<Index> = NameMap::new();
        proof {
            assert(indices.names_view() =~= Seq::<Seq<char>>::empty());
            assert(indices.items_view() =~= Seq::<Index>::empty());
        }
        Self::assemble(
            self.id,
            another_handle(&self.schema),
            rows,
            self.shell(),
            indices,
            copy_registry(&self.lazy_expressions),
        )
    }

    /// The rows for which the predicate gives `true`, as a new dataset
    /// with the same schema and registry and without indices.
    pub fn filter<F: Fn(&Tuple) -> bool>(&self, predicate: F) -> (r: Self)
        requires
            forall|row: &Tuple| call_requires(predicate, (row,)),
        ensures
            exists|marks: Seq<bool>| #[trigger]
                marks_fit(predicate, self.row_list(), marks) && r@ == (DatasetView {
                    rows: marked(self@.rows, marks),
                    index_names: Seq::empty(),
                    indices: Seq::empty(),
                    ..self@
                }),
            r@.wf(),
    {
        proof {
            use_type_invariant(self);
        }
        let mut kept: Vec<Tuple> = Vec::new();
        let ghost mut marks: Seq<bool> = Seq::empty();
        let mut i: usize = 0;
        proof {
            assert(rows_view(self.rows@).take(0) =~= Seq::<TupleView>::empty());
            assert(rows_view(kept@) =~= Seq::<TupleView>::empty());
        }
        while i < self.rows.len()
            invariant
                self.inv(),
                forall|row: &Tuple| call_requires(predicate, (row,)),
                i <= self.rows@.len(),
                marks.len() == i,
                forall|j: int|
                    0 <= j < i ==> call_ensures(predicate, (&self.rows@[j],), #[trigger] marks[j]),
                rows_view(kept@) == marked(rows_view(self.rows@).take(i as int), marks),
                rows_share(rows_view(kept@), self.schema@),
            decreases self.rows@.len() - i,
        {
            let ghost before = rows_view(kept@);
            let keep = predicate(&self.rows[i]);
            proof {
                let more = rows_view(self.rows@).take(i + 1);
                assert(more.drop_last() =~= rows_view(self.rows@).take(i as int));
                assert(more.last() == self.rows@[i as int]@);
                assert(marks.push(keep).drop_last() =~= marks);
                marks = marks.push(keep);
            }
            if keep {
                kept.push(self.rows[i].clone());
                proof {
                    assert(rows_view(kept@) =~= before.push(self.rows@[i as int]@));
                    assert(rows_view(self.rows@)[i as int] == self.rows@[i as int]@);
                }
            }
            i += 1;
        }
        proof {
            assert(rows_view(self.rows@).take(self.rows@.len() as int) =~= rows_view(self.rows@));
            assert(marks_fit(predicate, self.row_list(), marks));
        }
        self.derive(kept)
    }

    /// The rows that pass a predicate, as a new dataset with the same
    /// schema and registry and without indices.
    pub fn filter_by(&self, predicate: &Expr) -> (r: Self)
        ensures
            r@ == (DatasetView {
                rows: marked(self@.rows, marks_of(self@.rows, predicate@)),
                index_names: Seq::empty(),
                indices: Seq::empty(),
                ..self@
            }),
            r@.wf(),
    {
        proof {
            use_type_invariant(self);
        }
        let kept = filter_rows(&self.rows, predicate);
        proof {
            assert forall|i: int| 0 <= i < rows_view(kept@).len() implies (#[trigger] rows_view(
                kept@,
            )[i]).schema == self.schema@ && rows_view(kept@)[i].wf() by {
                lemma_marked_member(
                    rows_view(self.rows@),
                    marks_of(rows_view(self.rows@), predicate@),
                    i,
                );
            }
        }
        self.derive(kept)
    }

    /// The first `n` rows, as a new dataset with the same schema and
    /// registry and without indices.
    pub fn take(&self, n: usize) -> (r: Self)
        ensures
            r@ == (DatasetView {
                rows: if n <= self@.rows.len() {
                    self@.rows.take(n as int)
                } else {
                    self@.rows
                },
                index_names: Seq::empty(),
                indices: Seq::empty(),
                ..self@
            }),
            r@.wf(),
    {
        proof {
            use_type_invariant(self);
        }
        let end = if n <= self.rows.len() {
            n
        } else {
            self.rows.len()
        };
        let rows = copy_rows_between(&self.rows, 0, end);
        proof {
            assert(rows_view(self.rows@).subrange(0, end as int) =~= rows_view(self.rows@).take(
                end as int,
            ));
            assert(rows_view(self.rows@).take(self.rows@.len() as int) =~= rows_view(self.rows@));
        }
        self.derive(rows)
    }

    /// The rows after the first `n`, as a new dataset with the same schema
    /// and registry and without indices.
    pub fn skip(&self, n: usize) -> (r: Self)
        ensures
            r@ == (DatasetView {
                rows: if n <= self@.rows.len() {
                    self@.rows.skip(n as int)
                } else {
                    Seq::empty()
                },
                index_names: Seq::empty(),
                indices: Seq::empty(),
                ..self@
            }),
            r@.wf(),
    {
        proof {
            use_type_invariant(self);
        }
        let start = if n <= self.rows.len() {
            n
        } else {
            self.rows.len()
        };
        let rows = copy_rows_between(&self.rows, start, self.rows.len());
        proof {
            let all = rows_view(self.rows@);
            assert(all.subrange(start as int, all.len() as int) =~= all.skip(start as int));
            assert(all.skip(all.len() as int) =~= Seq::<TupleView>::empty());
        }
        self.derive(rows)
    }

    /// The rows sorted by a column, upwards or downwards, as a new dataset
    /// with the same schema and registry and without indices. Rows whose
    /// values impose no order on each other keep their order. Fails when
    /// the schema has no such column.
    pub fn sort_by(&self, column_name: &str, ascending: bool) -> (r: Result<Self, String>)
        ensures
            r is Ok <==> position_of(self@.schema, column_name@) is Some,
            r matches Ok(d) ==> d@ == (DatasetView {
                rows: arranged(
                    self@.rows,
                    sorted_order(
                        stored_column(
                            self@.rows,
                            position_of(self@.schema, column_name@).unwrap(),
                        ),
                        ascending,
                        self@.rows.len(),
                    ),
                ),
                index_names: Seq::empty(),
                indices: Seq::empty(),
                ..self@
            }) && d@.wf(),
            r matches Err(text) ==> text@ == missing_column_text(column_name@),
    {
        proof {
            use_type_invariant(self);
        }
        let place = match self.schema.get_field_index(column_name) {
            Some(place) => place,
            None => {
                let mut text = "Column '".to_owned();
                text.append(column_name);
                text.append("' not found");
                return Err(text);
            },
        };
        proof {
            let all = rows_view(self.rows@);
            assert forall|i: int| 0 <= i < self.rows@.len() implies place < (
            #[trigger] self.rows@[i])@.values.len() by {
                assert(all[i].wf());
            }
            let order = sorted_order(
                stored_column(all, place as int),
                ascending,
                self.rows@.len() as nat,
            );
            crate::sort::lemma_sorted_order_is_permutation(
                stored_column(all, place as int),
                ascending,
                self.rows@.len() as nat,
            );
            assert forall|i: int| 0 <= i < arranged(all, order).len() implies (#[trigger] arranged(
                all,
                order,
            )[i]).schema == self.schema@ && arranged(all, order)[i].wf() by {
                assert(all[order[i]].wf());
            }
        }
        let rows = sort_rows(&self.rows, place, ascending);
        Ok(self.derive(rows))
    }

    /// Every row mapped through a function, as a new dataset with the same
    /// schema and registry and without indices. The function must give
    /// rows bound to the schema of the dataset.
    pub fn map<F: Fn(&Tuple) -> Tuple>(&self, f: F) -> (r: Self)
        requires
            forall|row: &Tuple| call_requires(f, (row,)),
            forall|row: &Tuple, out: Tuple|
                call_ensures(f, (row,), out) ==> out@.schema == self@.schema,
        ensures
            exists|outs: Seq<Tuple>| #[trigger]
                outputs_fit(f, self.row_list(), outs) && r@.rows == rows_view(outs),
            r@.id == self@.id && r@.schema == self@.schema && r@.name == self@.name
                && r@.lazy_names == self@.lazy_names && r@.lazy_exprs == self@.lazy_exprs
                && r@.index_names.len() == 0,
            r@.wf(),
    {
        let mut mapped: Vec<Tuple> = Vec::with_capacity(self.rows.len());
        let mut i: usize = 0;
        while i < self.rows.len()
            invariant
                forall|row: &Tuple| call_requires(f, (row,)),
                forall|row: &Tuple, out: Tuple|
                    call_ensures(f, (row,), out) ==> out@.schema == self@.schema,
                i <= self.rows@.len(),
                mapped@.len() == i,
                rows_share(rows_view(mapped@), self@.schema),
                forall|j: int|
                    0 <= j < i ==> call_ensures(f, (&self.rows@[j],), #[trigger] mapped@[j]),
            decreases self.rows@.len() - i,
        {
            let ghost before = rows_view(mapped@);
            let out = f(&self.rows[i]);
            let bound = out.schema();
            mapped.push(out);
            proof {
                assert(rows_view(mapped@) =~= before.push(out@));
            }
            i += 1;
        }
        proof {
            assert(outputs_fit(f, self.row_list(), mapped@));
        }
        self.derive(mapped)
    }
}

/// Every marked row is one of the rows.
pub proof fn lemma_marked_member(rows: Seq<TupleView>, marks: Seq<bool>, i: int)
    requires
        marks.len() == rows.len(),
        0 <= i < marked(rows, marks).len(),
    ensures
        exists|j: int| 0 <= j < rows.len() && rows[j] == marked(rows, marks)[i],
    decreases rows.len(),
{
    if rows.len() > 0 {
        let before = marked(rows.drop_last(), marks.drop_last());
        if i < before.len() {
            lemma_marked_member(rows.drop_last(), marks.drop_last(), i);
            let j = choose|j: int|
                0 <= j < rows.drop_last().len() && rows.drop_last()[j] == before[i];
            assert(rows[j] == rows.drop_last()[j]);
        } else {
            assert(rows[rows.len() - 1] == rows.last());
        }
    }
}

/// The rows that pass a predicate, in order.
pub fn filter_rows(rows: &Vec<Tuple>, predicate: &Expr) -> (r: Vec<Tuple>)
    ensures
        rows_view(r@) == marked(rows_view(rows@), marks_of(rows_view(rows@), predicate@)),
{
    let ghost all = rows_view(rows@);
    let ghost marks = marks_of(all, predicate@);
    let mut kept: Vec<Tuple> = Vec::new();
    let mut i: usize = 0;
    proof {
        assert(all.take(0) =~= Seq::<TupleView>::empty());
        assert(rows_view(kept@) =~= Seq::<TupleView>::empty());
    }
    while i < rows.len()
        invariant
            all == rows_view(rows@),
            marks == marks_of(all, predicate@),
            i <= rows@.len(),
            rows_view(kept@) == marked(all.take(i as int), marks.take(i as int)),
        decreases rows@.len() - i,
    {
        let ghost before = rows_view(kept@);
        proof {
            assert(all.take(i + 1).drop_last() =~= all.take(i as int));
            assert(marks.take(i + 1).drop_last() =~= marks.take(i as int));
            assert(all.take(i + 1).last() == rows@[i as int]@);
        }
        if evaluate_predicate(predicate, &rows[i]) {
            kept.push(rows[i].clone());
            proof {
                assert(rows_view(kept@) =~= before.push(rows@[i as int]@));
            }
        }
        i += 1;
    }
    proof {
        assert(all.take(rows@.len() as int) =~= all);
        assert(marks.take(rows@.len() as int) =~= marks);
    }
    kept
}

/// A copy of the rows from `start` up to `end`.
pub fn copy_rows_between(rows: &Vec<Tuple>, start: usize, end: usize) -> (r: Vec<Tuple>)
    requires
        start <= end <= rows@.len(),
    ensures
        rows_view(r@) == rows_view(rows@).subrange(start as int, end as int),
{
    let mut out: Vec<Tuple> = Vec::with_capacity(end - start);
    let mut i: usize = start;
    while i < end
        invariant
            start <= i <= end <= rows@.len(),
            out@.len() == i - start,
            forall|j: int| 0 <= j < out@.len() ==> (#[trigger] out@[j])@ == rows@[start + j]@,
        decreases end - i,
    {
        out.push(rows[i].clone());
        i += 1;
    }
    assert(rows_view(out@) =~= rows_view(rows@).subrange(start as int, end as int));
    out
}

/// A copy of the rows sorted by the values at one position, upwards or
/// downwards; rows whose values impose no order on each other keep their
/// order.
pub fn sort_rows(rows: &Vec<Tuple>, place: usize, ascending: bool) -> (r: Vec<Tuple>)
    requires
        forall|i: int| 0 <= i < rows@.len() ==> place < (#[trigger] rows@[i])@.values.len(),
    ensures
        rows_view(r@) == arranged(
            rows_view(rows@),
            sorted_order(stored_column(rows_view(rows@), place as int), ascending, rows@.len()),
        ),
{
    let ghost all = rows_view(rows@);
    let mut keys: Vec<Value> = Vec::with_capacity(rows.len());
    let mut i: usize = 0;
    while i < rows.len()
        invariant
            forall|j: int| 0 <= j < rows@.len() ==> place < (#[trigger] rows@[j])@.values.len(),
            i <= rows@.len(),
            keys@.len() == i,
            forall|j: int| 0 <= j < i ==> (#[trigger] keys@[j])@ == rows@[j]@.values[place as int],
        decreases rows@.len() - i,
    {
        let values = rows[i].values();
        proof {
            assert(views_of(values@)[place as int] == values@[place as int]@);
        }
        keys.push(values[place].clone());
        i += 1;
    }
    proof {
        assert(views_of(keys@) =~= stored_column(all, place as int));
    }
    let order = sort_positions(&keys, ascending);
    let mut out: Vec<Tuple> = Vec::with_capacity(rows.len());
    let mut n: usize = 0;
    while n < order.len()
        invariant
            order@.len() == rows@.len(),
            forall|j: int| 0 <= j < order@.len() ==> #[trigger] order@[j] < rows@.len(),
            n <= order@.len(),
            out@.len() == n,
            forall|j: int| 0 <= j < n ==> (#[trigger] out@[j])@ == rows@[order@[j] as int]@,
        decreases order@.len() - n,
    {
        out.push(rows[order[n]].clone());
        n += 1;
    }
    proof {
        let wanted = arranged(all, as_ints(order@));
        assert forall|j: int| 0 <= j < out@.len() implies rows_view(out@)[j] == wanted[j] by {
            assert(as_ints(order@)[j] == order@[j] as int);
        }
        assert(rows_view(out@) =~= wanted);
    }
    out
}

/// The position of a name depends only on the names of the columns.
pub proof fn lemma_position_by_names(a: Seq<FieldView>, b: Seq<FieldView>, name: Seq<char>)
    requires
        a.len() == b.len(),
        forall|i: int| 0 <= i < a.len() ==> (#[trigger] a[i]).name == b[i].name,
    ensures
        position_of(a, name) == position_of(b, name),
    decreases a.len(),
{
    if a.len() > 0 {
        assert(a.last().name == a[a.len() - 1].name);
        assert forall|i: int| 0 <= i < a.drop_last().len() implies (#[trigger] a.drop_last()[i]).name
            == b.drop_last()[i].name by {
            assert(a[i].name == b[i].name);
        }
        lemma_position_by_names(a.drop_last(), b.drop_last(), name);
    }
}

/// The position of a name in a schema with one more column: the new
/// column if it bears the name, else the position before.
pub proof fn lemma_position_push(schema: Seq<FieldView>, field: FieldView, name: Seq<char>)
    ensures
        position_of(schema.push(field), name) == if field.name == name {
            Some(schema.len() as int)
        } else {
            position_of(schema, name)
        },
{
    assert(schema.push(field).drop_last() =~= schema);
}

/// The values of a row with the lazy columns computed: the value of the
/// registered expression where a column is lazy and has one, the stored
/// value everywhere else.
pub open spec fn evaluated_values(
    schema: Seq<FieldView>,
    lazy_names: Seq<Seq<char>>,
    lazy_exprs: Seq<ExprView>,
    row: TupleView,
) -> Seq<ValueView> {
    Seq::new(
        row.values.len(),
        |i: int|
            if schema[i].is_lazy {
                match name_position(lazy_names, schema[i].name) {
                    Some(k) => evaluate(lazy_exprs[k], row),
                    None => row.values[i],
                }
            } else {
                row.values[i]
            },
    )
}

/// The schema with no column lazy any more.
pub open spec fn cleared(schema: Seq<FieldView>) -> Seq<FieldView> {
    Seq::new(schema.len(), |i: int| FieldView { is_lazy: false, ..schema[i] })
}

/// Whether some column of the schema is lazy.
pub open spec fn has_lazy(schema: Seq<FieldView>) -> bool {
    exists|i: int| 0 <= i < schema.len() && (#[trigger] schema[i]).is_lazy
}

/// Rows under a schema with one more column, each with one more value.
pub open spec fn widened(rows: Seq<TupleView>, schema: Seq<FieldView>, added: Seq<ValueView>) -> Seq<
    TupleView,
> {
    Seq::new(rows.len(), |i: int| TupleView { schema, values: rows[i].values.push(added[i]) })
}

/// The names and items of a map after an insertion.
pub open spec fn names_after_insert(names: Seq<Seq<char>>, name: Seq<char>) -> Seq<Seq<char>> {
    if name_position(names, name) is Some {
        names
    } else {
        names.push(name)
    }
}

/// The value added to row `i`: the one of the list, or the constant when
/// there is no list.
pub open spec fn added_value(constant: ValueView, each: Option<Seq<ValueView>>, i: int)
    -> ValueView {
    match each {
        Some(list) => list[i],
        None => constant,
    }
}

/// The views of an optional list of values.
pub open spec fn list_views(each: Option<&Vec<Value>>) -> Option<Seq<ValueView>> {
    match each {
        Some(list) => Some(views_of(list@)),
        None => None,
    }
}

/// Rows with one more value each, bound to a schema with one more column.
/// Succeeds exactly when the new column accepts every value added.
fn widen_rows(
    rows: &Vec<Tuple>,
    old_schema: Ghost<Seq<FieldView>>,
    field: Ghost<FieldView>,
    schema: &Arc<Schema>,
    constant: &Value,
    each: Option<&Vec<Value>>,
) -> (r: Result<Vec<Tuple>, String>)
    requires
        rows_share(rows_view(rows@), old_schema@),
        schema@ == old_schema@.push(field@),
        each matches Some(list) ==> list@.len() == rows@.len(),
    ensures
        r is Ok <==> forall|i: int|
            0 <= i < rows@.len() ==> field@.accepts(
                #[trigger] added_value(constant@, list_views(each), i),
            ),
        r matches Ok(out) ==> rows_view(out@) == widened(
            rows_view(rows@),
            schema@,
            Seq::new(rows@.len(), |i: int| added_value(constant@, list_views(each), i)),
        ) && rows_share(rows_view(out@), schema@),
{
    let ghost list = list_views(each);
    let ghost all = rows_view(rows@);
    let mut out: Vec<Tuple> = Vec::with_capacity(rows.len());
    let mut i: usize = 0;
    while i < rows.len()
        invariant
            all == rows_view(rows@),
            list == list_views(each),
            rows_share(all, old_schema@),
            schema@ == old_schema@.push(field@),
            each matches Some(list) ==> list@.len() == rows@.len(),
            i <= rows@.len(),
            out@.len() == i,
            forall|j: int| 0 <= j < i ==> field@.accepts(#[trigger] added_value(constant@, list, j)),
            forall|j: int|
                0 <= j < i ==> (#[trigger] out@[j])@ == (TupleView {
                    schema: schema@,
                    values: all[j].values.push(added_value(constant@, list, j)),
                }) && out@[j]@.wf(),
        decreases rows@.len() - i,
    {
        let row = &rows[i];
        let mut values = crate::tuple::copy_values(row.values());
        let extra = match each {
            Some(list) => list[i].clone(),
            None => constant.clone(),
        };
        let ghost before = views_of(values@);
        values.push(extra);
        proof {
            assert(all[i as int] == row@);
            assert(all[i as int].wf());
            assert(extra@ == added_value(constant@, list, i as int));
            assert(views_of(values@) =~= before.push(extra@));
            if field@.accepts(extra@) {
                assert forall|j: int| 0 <= j < schema@.len() implies (#[trigger] schema@[j]).accepts(
                    views_of(values@)[j],
                ) by {
                    if j < old_schema@.len() {
                        assert(old_schema@[j].accepts(before[j]));
                    }
                }
                assert(schema_accepts(schema@, views_of(values@)));
            } else {
                assert(!schema@[old_schema@.len() as int].accepts(
                    views_of(values@)[old_schema@.len() as int],
                ));
            }
        }
        match Tuple::new(another_handle(schema), values) {
            Ok(tuple) => out.push(tuple),
            Err(e) => {
                assert(!field@.accepts(added_value(constant@, list, i as int)));
                return Err(e);
            },
        }
        i += 1;
    }
    proof {
        assert(rows_view(out@) =~= widened(
            all,
            schema@,
            Seq::new(rows@.len(), |i: int| added_value(constant@, list, i)),
        ));
        assert forall|j: int| 0 <= j < rows_view(out@).len() implies (#[trigger] rows_view(
            out@,
        )[j]).schema == schema@ && rows_view(out@)[j].wf() by {
            assert(out@[j]@.wf());
        }
    }
    Ok(out)
}

/// Rows widened by a column of a new name hold in every other column
/// what they held before.
pub proof fn lemma_widened_column(
    rows: Seq<TupleView>,
    schema: Seq<FieldView>,
    field: FieldView,
    added: Seq<ValueView>,
    name: Seq<char>,
)
    requires
        rows_share(rows, schema),
        position_of(schema, name) is Some,
        field.name != name,
    ensures
        column(widened(rows, schema.push(field), added), name) == column(rows, name),
{
    lemma_position_push(schema, field, name);
    lemma_position_of(schema, name);
    let wide = widened(rows, schema.push(field), added);
    assert forall|i: int| 0 <= i < rows.len() implies wide[i].get(name) == rows[i].get(name) by {
        assert(rows[i].wf());
    }
    assert(column(wide, name) =~= column(rows, name));
}

/// The field a new column is described by.
pub open spec fn new_field(name: Seq<char>, value_type: ValueType, nullable: bool, is_lazy: bool)
    -> FieldView {
    FieldView { name, value_type, nullable, is_lazy }
}

/// A schema handle with one more column.
fn schema_with(schema: &Arc<Schema>, field: Field) -> (r: Arc<Schema>)
    ensures
        r@ == schema@.push(field@),
{
    let Schema { fields: mut fields } = (**schema).clone();
    let ghost before = fields@.map_values(|f: Field| f@);
    fields.push(field);
    let wider = Schema::new(fields);
    proof {
        assert(wider@ =~= before.push(field@));
    }
    Arc::new(wider)
}

impl Dataset {
    /// Whether the schema has a column of the given name.
    pub fn schema_has_field(&self, name: &str) -> (r: bool)
        ensures
            r == position_of(self@.schema, name@) is Some,
    {
        self.schema.get_field_index(name).is_some()
    }

    /// The index of a column, if it has one.
    pub fn get_index(&self, column_name: &str) -> (r: Option<&Index>)
        ensures
            self@.wf(),
            match r {
                Some(index) => self@.index(column_name@) == Some(*index),
                None => self@.index(column_name@) is None,
            },
    {
        proof {
            use_type_invariant(self);
            self.lemma_view_wf();
        }
        self.indices.get(column_name)
    }

    /// The names of the columns that have an index, in the order in which
    /// the indices were first created.
    pub fn index_columns(&self) -> (r: Vec<String>)
        ensures
            r@.map_values(|n: String| n@) == self@.index_names,
    {
        self.indices.keys()
    }

    /// The expression registered for a column, if any.
    pub fn lazy_expression(&self, column_name: &str) -> (r: Option<&Expr>)
        ensures
            match r {
                Some(expr) => self@.lazy_expr(column_name@) == Some(expr@),
                None => self@.lazy_expr(column_name@) is None,
            },
    {
        proof {
            use_type_invariant(self);
            self.lemma_lazy_expr(column_name@);
        }
        self.lazy_expressions.get(column_name)
    }

    /// Gives the dataset a name, or takes its name away.
    pub fn set_name(&mut self, name: Option<String>)
        ensures
            final(self)@ == (DatasetView {
                name: match name {
                    Some(n) => Some(n@),
                    None => None,
                },
                ..old(self)@
            }),
            final(self)@.wf(),
    {
        proof {
            use_type_invariant(&*self);
            self.lemma_view_wf();
        }
        self.metadata.name = name;
    }

    /// The free-form entries of the metadata.
    pub closed spec fn extras(&self) -> NameMap<String> {
        self.metadata.extra
    }

    /// Puts a free-form entry into the metadata and notes the time: see
    /// [`entry_set`].
    pub fn set_extra(&mut self, key: String, value: String)
        ensures
            final(self)@ == old(self)@,
            entry_set(&old(self).extras(), &final(self).extras(), key@, value@),
    {
        proof {
            use_type_invariant(&*self);
        }
        let mut extra: NameMap<String> = NameMap::new();
        core::mem::swap(&mut self.metadata.extra, &mut extra);
        let ghost before = extra;
        let ghost text = value@;
        let _ = extra.len();
        proof {
            lemma_name_position(before.names_view(), key@);
        }
        extra.insert(key, value);
        proof {
            if name_position(before.names_view(), key@) is None {
                assert(extra.items_view().drop_last() =~= before.items_view());
            }
            assert(entry_set(&before, &extra, key@, text));
        }
        core::mem::swap(&mut self.metadata.extra, &mut extra);
        self.metadata.updated_at = now_micros();
    }

    /// The value of a lazy column on a row, if the column has an
    /// expression registered.
    pub fn evaluate_lazy_column(&self, column_name: &str, row: &Tuple) -> (r: Option<Value>)
        ensures
            match self@.lazy_expr(column_name@) {
                Some(expr) => r matches Some(value) && value@ == evaluate(expr, row@),
                None => r is None,
            },
    {
        match self.lazy_expression(column_name) {
            Some(expr) => Some(evaluate_expression(expr, row)),
            None => None,
        }
    }

    /// The values of a row with the lazy columns computed: see
    /// [`evaluated_values`].
    pub fn evaluate_row_values(&self, row: &Tuple) -> (r: Vec<Value>)
        requires
            row@.schema == self@.schema,
        ensures
            views_of(r@) == evaluated_values(
                self@.schema,
                self@.lazy_names,
                self@.lazy_exprs,
                row@,
            ),
    {
        let stored = row.values();
        let mut values: Vec<Value> = Vec::with_capacity(stored.len());
        let mut i: usize = 0;
        while i < stored.len()
            invariant
                views_of(stored@) == row@.values,
                stored@.len() == self.schema@.len(),
                self.schema@ == self@.schema,
                i <= stored@.len(),
                values@.len() == i,
                forall|j: int|
                    0 <= j < i ==> (#[trigger] values@[j])@ == evaluated_values(
                        self@.schema,
                        self@.lazy_names,
                        self@.lazy_exprs,
                        row@,
                    )[j],
            decreases stored@.len() - i,
        {
            let field = &self.schema.fields[i];
            proof {
                assert(self.schema@[i as int] == field@);
                assert(views_of(stored@)[i as int] == stored@[i as int]@);
            }
            let value = if field.is_lazy {
                match self.lazy_expression(field.name.as_str()) {
                    Some(expr) => evaluate_expression(expr, row),
                    None => stored[i].clone(),
                }
            } else {
                stored[i].clone()
            };
            values.push(value);
            i += 1;
        }
        proof {
            assert(views_of(values@) =~= evaluated_values(
                self@.schema,
                self@.lazy_names,
                self@.lazy_exprs,
                row@,
            ));
        }
        values
    }

    /// A row with the lazy columns computed, bound to the schema of the
    /// dataset. Fails when the schema does not accept a computed value.
    pub fn evaluate_lazy_row(&self, row: &Tuple) -> (r: Result<Tuple, String>)
        requires
            row@.schema == self@.schema,
        ensures
            r is Ok <==> schema_accepts(
                self@.schema,
                evaluated_values(self@.schema, self@.lazy_names, self@.lazy_exprs, row@),
            ),
            r matches Ok(t) ==> t@ == (TupleView {
                schema: self@.schema,
                values: evaluated_values(self@.schema, self@.lazy_names, self@.lazy_exprs, row@),
            }),
    {
        let values = self.evaluate_row_values(row);
        Tuple::new(another_handle(&self.schema), values)
    }

    /// The row at a position with the lazy columns computed; `None` past
    /// the end and where the schema does not accept a computed value.
    pub fn get_row_evaluated(&self, index: usize) -> (r: Option<Tuple>)
        ensures
            match r {
                Some(t) => index < self@.rows.len() && t@ == (TupleView {
                    schema: self@.schema,
                    values: evaluated_values(
                        self@.schema,
                        self@.lazy_names,
                        self@.lazy_exprs,
                        self@.rows[index as int],
                    ),
                }),
                None => index >= self@.rows.len() || !schema_accepts(
                    self@.schema,
                    evaluated_values(
                        self@.schema,
                        self@.lazy_names,
                        self@.lazy_exprs,
                        self@.rows[index as int],
                    ),
                ),
            },
    {
        proof {
            use_type_invariant(self);
        }
        if index >= self.rows.len() {
            return None;
        }
        proof {
            assert(rows_view(self.rows@)[index as int] == self.rows@[index as int]@);
        }
        match self.evaluate_lazy_row(&self.rows[index]) {
            Ok(t) => Some(t),
            Err(_) => None,
        }
    }

    /// The values of a column, row by row: for a lazy column the value of
    /// its expression on each row, for any other column the stored
    /// values. Fails when the schema has no such column or a lazy column
    /// has no expression registered.
    pub fn get_column(&self, column_name: &str) -> (r: Result<Vec<Value>, String>)
        ensures
            match self@.column_values(column_name@) {
                Some(wanted) => r matches Ok(values) && views_of(values@) == wanted,
                None => r is Err,
            },
            r matches Err(text) ==> text@ == if position_of(self@.schema, column_name@) is None {
                missing_column_text(column_name@)
            } else {
                "Lazy expression not found for column '"@ + column_name@ + "'"@
            },
    {
        proof {
            use_type_invariant(self);
        }
        let place = match self.schema.get_field_index(column_name) {
            Some(place) => place,
            None => {
                let mut text = "Column '".to_owned();
                text.append(column_name);
                text.append("' not found");
                return Err(text);
            },
        };
        proof {
            assert(self.schema@[place as int] == self.schema.fields@[place as int]@);
        }
        let mut values: Vec<Value> = Vec::with_capacity(self.rows.len());
        if self.schema.fields[place].is_lazy {
            let expr = match self.lazy_expression(column_name) {
                Some(expr) => expr,
                None => {
                    let mut text = "Lazy expression not found for column '".to_owned();
                    text.append(column_name);
                    text.append("'");
                    return Err(text);
                },
            };
            let mut i: usize = 0;
            while i < self.rows.len()
                invariant
                    i <= self.rows@.len(),
                    values@.len() == i,
                    forall|j: int|
                        0 <= j < i ==> (#[trigger] values@[j])@ == evaluate(expr@, self.rows@[j]@),
                decreases self.rows@.len() - i,
            {
                values.push(evaluate_expression(expr, &self.rows[i]));
                i += 1;
            }
            proof {
                assert(views_of(values@) =~= Seq::new(
                    self@.rows.len(),
                    |i: int| evaluate(expr@, self@.rows[i]),
                ));
            }
        } else {
            let mut i: usize = 0;
            while i < self.rows.len()
                invariant
                    self.inv(),
                    place < self.schema@.len(),
                    i <= self.rows@.len(),
                    values@.len() == i,
                    forall|j: int|
                        0 <= j < i ==> (#[trigger] values@[j])@
                            == self.rows@[j]@.values[place as int],
                decreases self.rows@.len() - i,
            {
                let stored = self.rows[i].values();
                proof {
                    assert(rows_view(self.rows@)[i as int].wf());
                    assert(views_of(stored@)[place as int] == stored@[place as int]@);
                }
                values.push(stored[place].clone());
                i += 1;
            }
            proof {
                assert(views_of(values@) =~= Seq::new(
                    self@.rows.len(),
                    |i: int| self@.rows[i].values[place as int],
                ));
            }
        }
        Ok(values)
    }

    /// Adds a column that holds the default value in every row. Fails,
    /// leaving the dataset as it was, when the schema has a column of that
    /// name, when the default value is neither `Null` nor of the given
    /// type, and when there are rows and the new column does not accept
    /// the default value.
    pub fn add_column(
        &mut self,
        column_name: String,
        value_type: ValueType,
        default_value: Value,
        nullable: bool,
    ) -> (r: Result<(), String>)
        ensures
            r is Ok <==> position_of(old(self)@.schema, column_name@) is None && (default_value@
                is Null || default_value@.matches_type(value_type)) && (old(self)@.rows.len() == 0
                || new_field(column_name@, value_type, nullable, false).accepts(default_value@)),
            r is Ok ==> final(self)@ == (DatasetView {
                schema: old(self)@.schema.push(
                    new_field(column_name@, value_type, nullable, false),
                ),
                rows: widened(
                    old(self)@.rows,
                    old(self)@.schema.push(new_field(column_name@, value_type, nullable, false)),
                    Seq::new(old(self)@.rows.len(), |i: int| default_value@),
                ),
                ..old(self)@
            }),
            r is Err ==> final(self)@ == old(self)@,
            final(self)@.wf(),
    {
        proof {
            use_type_invariant(&*self);
            self.lemma_view_wf();
        }
        if self.schema.get_field_index(column_name.as_str()).is_some() {
            let mut text = "Column '".to_owned();
            text.append(column_name.as_str());
            text.append("' already exists");
            return Err(text);
        }
        if !default_value.is_null() && !default_value.matches_type(&value_type) {
            return Err("Default value type mismatch".to_owned());
        }
        let field = Field { name: column_name, value_type, nullable, is_lazy: false };
        let outcome = self.widen(field, &default_value, None, None);
        proof {
            let count = old(self)@.rows.len();
            assert(Seq::new(count, |i: int| added_value(default_value@, list_views(None), i))
                =~= Seq::new(count, |i: int| default_value@));
            if count > 0 {
                assert(added_value(default_value@, list_views(None), 0) == default_value@);
            }
        }
        outcome
    }

    /// Adds a column computed from an expression. A lazy column stores
    /// `Null` in every row and registers the expression, to be evaluated
    /// when the column is read; it is nullable. Any other column stores
    /// the values the caller computed, one per row, and is not nullable.
    /// Fails, leaving the dataset as it was, when the schema has a column
    /// of that name and, for a column that is not lazy, when the number of
    /// values is not the number of rows, when a value is not of the given
    /// type, and when the new column does not accept a value.
    pub fn add_computed_column(
        &mut self,
        column_name: String,
        value_type: ValueType,
        computed_values: Vec<Value>,
        expression: Expr,
        lazy: bool,
    ) -> (r: Result<(), String>)
        ensures
            r is Ok <==> position_of(old(self)@.schema, column_name@) is None && (lazy || (
            computed_values@.len() == old(self)@.rows.len() && forall|i: int|
                0 <= i < computed_values@.len() ==> (#[trigger] views_of(
                    computed_values@,
                )[i]).matches_type(value_type) && new_field(
                    column_name@,
                    value_type,
                    false,
                    false,
                ).accepts(views_of(computed_values@)[i]))),
            r is Ok && lazy ==> final(self)@ == (DatasetView {
                schema: old(self)@.schema.push(new_field(column_name@, value_type, true, true)),
                rows: widened(
                    old(self)@.rows,
                    old(self)@.schema.push(new_field(column_name@, value_type, true, true)),
                    Seq::new(old(self)@.rows.len(), |i: int| ValueView::Null),
                ),
                lazy_names: old(self)@.lazy_names.push(column_name@),
                lazy_exprs: old(self)@.lazy_exprs.push(expression@),
                ..old(self)@
            }),
            r is Ok && !lazy ==> final(self)@ == (DatasetView {
                schema: old(self)@.schema.push(new_field(column_name@, value_type, false, false)),
                rows: widened(
                    old(self)@.rows,
                    old(self)@.schema.push(new_field(column_name@, value_type, false, false)),
                    views_of(computed_values@),
                ),
                ..old(self)@
            }),
            r is Err ==> final(self)@ == old(self)@,
            final(self)@.wf(),
    {
        proof {
            use_type_invariant(&*self);
            self.lemma_view_wf();
        }
        if self.schema.get_field_index(column_name.as_str()).is_some() {
            let mut text = "Column '".to_owned();
            text.append(column_name.as_str());
            text.append("' already exists");
            return Err(text);
        }
        let field = Field { name: column_name, value_type, nullable: lazy, is_lazy: lazy };
        if lazy {
            let placeholder = Value::Null;
            let outcome = self.widen(field, &placeholder, None, Some(expression));
            proof {
                assert(Seq::new(
                    old(self)@.rows.len(),
                    |i: int| added_value(placeholder@, list_views(None), i),
                ) =~= Seq::new(old(self)@.rows.len(), |i: int| ValueView::Null));
            }
            return outcome;
        }
        if computed_values.len() != self.rows.len() {
            return Err("Computed values count doesn't match row count".to_owned());
        }
        let mut i: usize = 0;
        while i < computed_values.len()
            invariant
                *self == *old(self),
                self@.wf(),
                !lazy,
                i <= computed_values@.len(),
                forall|j: int|
                    0 <= j < i ==> (#[trigger] views_of(computed_values@)[j]).matches_type(
                        value_type,
                    ),
            decreases computed_values@.len() - i,
        {
            if !computed_values[i].matches_type(&value_type) {
                assert(!views_of(computed_values@)[i as int].matches_type(value_type));
                let mut text = "Computed value at row ".to_owned();
                text.append(crate::text::decimal_text(i).as_str());
                text.append(" type mismatch");
                return Err(text);
            }
            i += 1;
        }
        let placeholder = Value::Null;
        let outcome = self.widen(field, &placeholder, Some(&computed_values), None);
        proof {
            let list = views_of(computed_values@);
            assert(list_views(Some(&computed_values)) == Some(list));
            assert(Seq::new(
                old(self)@.rows.len(),
                |i: int| added_value(placeholder@, Some(list), i),
            ) =~= list);
            assert forall|i: int| 0 <= i < list.len() implies added_value(
                placeholder@,
                Some(list),
                i,
            ) == #[trigger] list[i] by {}
        }
        outcome
    }

    /// Widens the dataset by a column whose name the schema does not have:
    /// every row gets one more value, the one of the list or the constant
    /// where there is no list, and the expression, if one is given, is
    /// registered for the column. Fails, leaving the dataset as it was,
    /// when the new column does not accept a value.
    fn widen(
        &mut self,
        field: Field,
        constant: &Value,
        each: Option<&Vec<Value>>,
        expression: Option<Expr>,
    ) -> (r: Result<(), String>)
        requires
            old(self).inv(),
            position_of(old(self)@.schema, field@.name) is None,
            each matches Some(list) ==> list@.len() == old(self)@.rows.len(),
            expression is Some ==> field@.is_lazy,
        ensures
            r is Ok <==> forall|i: int|
                0 <= i < old(self)@.rows.len() ==> field@.accepts(
                    #[trigger] added_value(constant@, list_views(each), i),
                ),
            r is Ok ==> final(self)@ == (DatasetView {
                schema: old(self)@.schema.push(field@),
                rows: widened(
                    old(self)@.rows,
                    old(self)@.schema.push(field@),
                    Seq::new(
                        old(self)@.rows.len(),
                        |i: int| added_value(constant@, list_views(each), i),
                    ),
                ),
                lazy_names: match expression {
                    Some(_) => old(self)@.lazy_names.push(field@.name),
                    None => old(self)@.lazy_names,
                },
                lazy_exprs: match expression {
                    Some(e) => old(self)@.lazy_exprs.push(e@),
                    None => old(self)@.lazy_exprs,
                },
                ..old(self)@
            }),
            r is Err ==> final(self)@ == old(self)@,
            final(self)@.wf(),
    {
        proof {
            self.lemma_view_wf();
        }
        let ghost old_schema = self.schema@;
        let ghost old_rows = rows_view(self.rows@);
        let ghost added = Seq::new(
            old_rows.len(),
            |i: int| added_value(constant@, list_views(each), i),
        );
        let ghost name = field@.name;
        let ghost field_view = field@;
        let wider = schema_with(&self.schema, field);
        let rows = match widen_rows(
            &self.rows,
            Ghost(old_schema),
            Ghost(field_view),
            &wider,
            constant,
            each,
        ) {
            Ok(rows) => rows,
            Err(e) => {
                return Err(e);
            },
        };
        let mut taken = Dataset::new(self.id, another_handle(&self.schema), None);
        core::mem::swap(self, &mut taken);
        let Dataset { id, schema, rows: _, metadata, indices, lazy_expressions: mut lazy } = taken;
        let ghost old_lazy_names = lazy.names_view();
        proof {
            assert forall|k: int| 0 <= k < lazy.names_view().len() implies is_lazy_column(
                wider@,
                #[trigger] lazy.names_view()[k],
            ) by {
                let n = lazy.names_view()[k];
                assert(is_lazy_column(old_schema, n));
                lemma_position_push(old_schema, field_view, n);
                lemma_position_of(old_schema, n);
            }
            assert forall|k: int| 0 <= k < indices.names_view().len() implies index_consistent(
                #[trigger] indices.items_view()[k],
                column(rows_view(rows@), indices.names_view()[k]),
            ) by {
                let n = indices.names_view()[k];
                assert(position_of(old_schema, n) is Some);
                lemma_widened_column(old_rows, old_schema, field_view, added, n);
            }
            assert forall|k: int| 0 <= k < indices.names_view().len() implies position_of(
                wider@,
                #[trigger] indices.names_view()[k],
            ) is Some by {
                let n = indices.names_view()[k];
                assert(position_of(old_schema, n) is Some);
                lemma_position_push(old_schema, field_view, n);
            }
        }
        match expression {
            Some(e) => {
                let ghost before_exprs = registry_exprs(&lazy);
                proof {
                    lemma_name_position(old_lazy_names, name);
                    if name_position(old_lazy_names, name) is Some {
                        let k = name_position(old_lazy_names, name).unwrap();
                        assert(is_lazy_column(old_schema, old_lazy_names[k]));
                    }
                    lemma_position_push(old_schema, field_view, name);
                }
                lazy.insert(name_text(&wider), e);
                proof {
                    assert(registry_exprs(&lazy) =~= before_exprs.push(e@));
                    assert forall|k: int| 0 <= k < lazy.names_view().len() implies is_lazy_column(
                        wider@,
                        #[trigger] lazy.names_view()[k],
                    ) by {
                        if k < old_lazy_names.len() {
                            assert(lazy.names_view()[k] == old_lazy_names[k]);
                        }
                    }
                }
            },
            None => {},
        }
        *self = Self::assemble(id, wider, rows, metadata, indices, lazy);
        Ok(())
    }
}

/// The name of the last column of a schema.
fn name_text(schema: &Arc<Schema>) -> (r: String)
    requires
        schema@.len() > 0,
    ensures
        r@ == schema@.last().name,
{
    let last = schema.fields.len() - 1;
    proof {
        assert(schema@[last as int] == schema.fields@[last as int]@);
    }
    schema.fields[last].name.clone()
}

/// Whether an index takes in every value of a column.
pub open spec fn column_accepted(index: Index, values: Seq<Option<ValueView>>) -> bool {
    forall|i: int|
        0 <= i < values.len() ==> match #[trigger] values[i] {
            Some(value) => index.accepts(value),
            None => true,
        }
}

/// A schema accepts the same values whether or not its columns are lazy.
pub proof fn lemma_cleared_accepts(schema: Seq<FieldView>, values: Seq<ValueView>)
    ensures
        schema_accepts(cleared(schema), values) == schema_accepts(schema, values),
{
    if schema_accepts(schema, values) {
        assert forall|i: int| 0 <= i < schema.len() implies (#[trigger] cleared(schema)[i]).accepts(
            values[i],
        ) by {
            assert(schema[i].accepts(values[i]));
        }
    }
    if schema_accepts(cleared(schema), values) {
        assert forall|i: int| 0 <= i < schema.len() implies (#[trigger] schema[i]).accepts(
            values[i],
        ) by {
            assert(cleared(schema)[i].accepts(values[i]));
        }
    }
}

/// A fresh index of the kind of the given one.
fn fresh_like(index: &Index) -> (r: Index)
    ensures
        r.index_kind() == index.index_kind(),
        index_consistent(r, Seq::empty()),
        forall|value: ValueView| r.accepts(value) == index.accepts(value),
{
    match index {
        Index::Hash(_) => Index::Hash(HashIndex::new()),
        Index::Vector(_) => Index::Vector(VectorIndex::new()),
    }
}

impl Dataset {
    /// Gives a column an index of the kind of the given one, built from
    /// the rows of the dataset; the contents of the given index are not
    /// used. An index the column already had is replaced. Fails, leaving
    /// the dataset as it was, when the schema has no such column and when
    /// the index does not take in a value of the column.
    pub fn create_index(&mut self, column_name: String, index: Index) -> (r: Result<(), String>)
        ensures
            r is Ok <==> position_of(old(self)@.schema, column_name@) is Some && column_accepted(
                index,
                column(old(self)@.rows, column_name@),
            ),
            r is Ok ==> final(self)@.id == old(self)@.id && final(self)@.schema == old(self)@.schema && final(self)@.rows == old(self)@.rows && final(self)@.name == old(self)@.name && final(self)@.lazy_names == old(self)@.lazy_names && final(self)@.lazy_exprs
                == old(self)@.lazy_exprs && final(self)@.index_names == names_after_insert(
                old(self)@.index_names,
                column_name@,
            ) && (final(self)@.index(column_name@) matches Some(made) && made.index_kind()
                == index.index_kind()) && forall|other: Seq<char>|
                other != column_name@ ==> (#[trigger] final(self)@.index(other)) == old(self)@.index(other),
            r is Err ==> final(self)@ == old(self)@,
            final(self)@.wf(),
    {
        proof {
            use_type_invariant(&*self);
            self.lemma_view_wf();
        }
        if !self.schema_has_field(column_name.as_str()) {
            let mut text = "Column '".to_owned();
            text.append(column_name.as_str());
            text.append("' not found in schema");
            return Err(text);
        }
        let ghost all = rows_view(self.rows@);
        let ghost values = column(all, column_name@);
        let mut fresh = fresh_like(&index);
        let mut i: usize = 0;
        proof {
            assert(values.take(0) =~= Seq::<Option<ValueView>>::empty());
        }
        while i < self.rows.len()
            invariant
                *self == *old(self),
                self@.wf(),
                all == rows_view(self.rows@),
                values == column(all, column_name@),
                position_of(self@.schema, column_name@) is Some,
                i <= self.rows@.len(),
                fresh.index_kind() == index.index_kind(),
                forall|value: ValueView| fresh.accepts(value) == index.accepts(value),
                index_consistent(fresh, values.take(i as int)),
                column_accepted(index, values.take(i as int)),
            decreases self.rows@.len() - i,
        {
            let ghost before = fresh;
            let ghost seen = values.take(i as int);
            proof {
                assert(values.take(i + 1) =~= seen.push(values[i as int]));
                assert(values[i as int] == self.rows@[i as int]@.get(column_name@));
            }
            match self.rows[i].get(column_name.as_str()) {
                Some(value) => {
                    if fresh.add(i, value).is_err() {
                        proof {
                            assert(!index.accepts(value@));
                            assert(values[i as int] == Some(value@));
                        }
                        return Err("Index does not take a value of the column".to_owned());
                    }
                    proof {
                        lemma_index_after_add(before, fresh, seen, Some(value@));
                        assert forall|j: int| 0 <= j < seen.push(values[i as int]).len() implies (
                        match #[trigger] seen.push(values[i as int])[j] {
                            Some(value) => index.accepts(value),
                            None => true,
                        }) by {
                            if j < seen.len() {
                                assert(seen.push(values[i as int])[j] == seen[j]);
                            }
                        }
                    }
                },
                None => {
                    proof {
                        lemma_index_after_add(before, fresh, seen, None);
                        assert forall|j: int| 0 <= j < seen.push(values[i as int]).len() implies (
                        match #[trigger] seen.push(values[i as int])[j] {
                            Some(value) => index.accepts(value),
                            None => true,
                        }) by {
                            if j < seen.len() {
                                assert(seen.push(values[i as int])[j] == seen[j]);
                            }
                        }
                    }
                },
            }
            i += 1;
        }
        proof {
            assert(values.take(self.rows@.len() as int) =~= values);
        }
        let mut taken = Dataset::new(self.id, another_handle(&self.schema), None);
        core::mem::swap(self, &mut taken);
        proof {
            use_type_invariant(&taken);
        }
        let Dataset { id, schema, rows, metadata, indices: mut indices, lazy_expressions } = taken;
        let ghost old_names = indices.names_view();
        let ghost old_items = indices.items_view();
        proof {
            lemma_name_position(old_names, column_name@);
        }
        indices.insert(column_name, fresh);
        proof {
            assert forall|k: int| 0 <= k < indices.names_view().len() implies index_consistent(
                #[trigger] indices.items_view()[k],
                column(all, indices.names_view()[k]),
            ) by {
                if k < old_names.len() && name_position(old_names, column_name@) != Some(k) {
                    assert(indices.items_view()[k] == old_items[k]);
                    assert(indices.names_view()[k] == old_names[k]);
                }
            }
            assert forall|k: int| 0 <= k < indices.names_view().len() implies position_of(
                schema@,
                #[trigger] indices.names_view()[k],
            ) is Some by {
                if k < old_names.len() {
                    assert(indices.names_view()[k] == old_names[k]);
                }
            }
        }
        let ghost new_names = indices.names_view();
        let ghost new_items = indices.items_view();
        *self = Self::assemble(id, schema, rows, metadata, indices, lazy_expressions);
        proof {
            lemma_name_position(new_names, column_name@);
            assert forall|other: Seq<char>| other != column_name@ implies (#[trigger] self@.index(
                other,
            )) == old(self)@.index(other) by {
                lemma_name_position(new_names, other);
                lemma_name_position(old_names, other);
                lemma_names_after_insert(old_names, column_name@, other);
            }
            lemma_names_after_insert(old_names, column_name@, column_name@);
        }
        Ok(())
    }

    /// Turns every lazy column into a stored one: its values are computed
    /// from its expression and stored, the column is no longer lazy, the
    /// registry is emptied, and the indices are dropped. A dataset without
    /// lazy columns stays as it is. Fails, leaving the dataset as it was,
    /// when the schema does not accept a computed value.
    pub fn materialize_lazy_columns(&mut self) -> (r: Result<(), String>)
        ensures
            r is Ok <==> !has_lazy(old(self)@.schema) || forall|i: int|
                0 <= i < old(self)@.rows.len() ==> schema_accepts(
                    old(self)@.schema,
                    evaluated_values(
                        old(self)@.schema,
                        old(self)@.lazy_names,
                        old(self)@.lazy_exprs,
                        #[trigger] old(self)@.rows[i],
                    ),
                ),
            r is Ok && has_lazy(old(self)@.schema) ==> final(self)@ == (DatasetView {
                schema: cleared(old(self)@.schema),
                rows: Seq::new(
                    old(self)@.rows.len(),
                    |i: int|
                        TupleView {
                            schema: cleared(old(self)@.schema),
                            values: evaluated_values(
                                old(self)@.schema,
                                old(self)@.lazy_names,
                                old(self)@.lazy_exprs,
                                old(self)@.rows[i],
                            ),
                        },
                ),
                lazy_names: Seq::empty(),
                lazy_exprs: Seq::empty(),
                index_names: Seq::empty(),
                indices: Seq::empty(),
                ..old(self)@
            }),
            r is Ok && !has_lazy(old(self)@.schema) ==> final(self)@ == old(self)@,
            r is Err ==> final(self)@ == old(self)@,
            final(self)@.wf(),
    {
        proof {
            use_type_invariant(&*self);
            self.lemma_view_wf();
        }
        let ghost old_schema = self.schema@;
        let ghost all = rows_view(self.rows@);
        let mut fields: Vec<Field> = Vec::with_capacity(self.schema.fields.len());
        let mut any = false;
        let mut k: usize = 0;
        while k < self.schema.fields.len()
            invariant
                *self == *old(self),
                old_schema == self.schema@,
                k <= self.schema.fields@.len(),
                fields@.len() == k,
                any == exists|j: int| 0 <= j < k && (#[trigger] old_schema[j]).is_lazy,
                forall|j: int|
                    0 <= j < k ==> (#[trigger] fields@[j])@ == (FieldView {
                        is_lazy: false,
                        ..old_schema[j]
                    }),
            decreases self.schema.fields@.len() - k,
        {
            let field = &self.schema.fields[k];
            proof {
                assert(old_schema[k as int] == field@);
            }
            if field.is_lazy {
                any = true;
            }
            fields.push(
                Field {
                    name: field.name.clone(),
                    value_type: field.value_type,
                    nullable: field.nullable,
                    is_lazy: false,
                },
            );
            k += 1;
        }
        if !any {
            return Ok(());
        }
        let plain = Schema::new(fields);
        proof {
            assert(plain@ =~= cleared(old_schema));
        }
        let plain = Arc::new(plain);
        let mut rows: Vec<Tuple> = Vec::with_capacity(self.rows.len());
        let mut i: usize = 0;
        while i < self.rows.len()
            invariant
                *self == *old(self),
                self.inv(),
                self@.wf(),
                old_schema == self.schema@,
                old_schema == self@.schema,
                all == rows_view(self.rows@),
                all == self@.rows,
                plain@ == cleared(old_schema),
                has_lazy(old_schema),
                i <= self.rows@.len(),
                rows@.len() == i,
                forall|j: int|
                    0 <= j < i ==> schema_accepts(
                        old_schema,
                        evaluated_values(
                            old_schema,
                            self@.lazy_names,
                            self@.lazy_exprs,
                            #[trigger] all[j],
                        ),
                    ),
                forall|j: int|
                    0 <= j < i ==> (#[trigger] rows@[j])@ == (TupleView {
                        schema: plain@,
                        values: evaluated_values(
                            old_schema,
                            self@.lazy_names,
                            self@.lazy_exprs,
                            all[j],
                        ),
                    }) && rows@[j]@.wf(),
            decreases self.rows@.len() - i,
        {
            proof {
                assert(all[i as int] == self.rows@[i as int]@);
                assert(all[i as int].wf());
            }
            let values = self.evaluate_row_values(&self.rows[i]);
            proof {
                lemma_cleared_accepts(old_schema, views_of(values@));
            }
            match Tuple::new(another_handle(&plain), values) {
                Ok(tuple) => rows.push(tuple),
                Err(e) => {
                    return Err(e);
                },
            }
            i += 1;
        }
        let indices: NameMap<Index> = NameMap::new();
        let lazy: NameMap<Expr> = NameMap::new();
        proof {
            assert(registry_exprs(&lazy) =~= Seq::<ExprView>::empty());
            assert(lazy.names_view() =~= Seq::<Seq<char>>::empty());
            assert(indices.names_view() =~= Seq::<Seq<char>>::empty());
            assert(indices.items_view() =~= Seq::<Index>::empty());
            assert(rows_view(rows@) =~= Seq::new(
                all.len(),
                |i: int|
                    TupleView {
                        schema: cleared(old_schema),
                        values: evaluated_values(
                            old_schema,
                            old(self)@.lazy_names,
                            old(self)@.lazy_exprs,
                            all[i],
                        ),
                    },
            ));
        }
        let shell = self.shell();
        *self = Self::assemble(self.id, plain, rows, shell, indices, lazy);
        Ok(())
    }

    /// Puts the given rows in the place of the rows held. Every row must
    /// stand under a schema equal to that of the dataset. The indices are
    /// dropped, since they tell of the rows that leave; the registry of
    /// lazy columns stays. Fails, leaving the dataset as it was, when a
    /// row stands under another schema.
    pub fn replace_rows(&mut self, rows: Vec<Tuple>) -> (r: Result<(), String>)
        ensures
            r is Ok <==> rows_share(rows_view(rows@), old(self)@.schema),
            r is Ok ==> final(self)@ == (DatasetView {
                rows: rows_view(rows@),
                index_names: Seq::empty(),
                indices: Seq::empty(),
                ..old(self)@
            }),
            r is Err ==> final(self)@ == old(self)@,
            final(self)@.wf(),
    {
        proof {
            use_type_invariant(&*self);
            self.lemma_view_wf();
        }
        let mut i: usize = 0;
        while i < rows.len()
            invariant
                *self == *old(self),
                self@.wf(),
                i <= rows@.len(),
                forall|j: int|
                    0 <= j < i ==> (#[trigger] rows@[j])@.schema == self.schema@ && rows@[j]@.wf(),
            decreases rows@.len() - i,
        {
            if !rows[i].schema().same_as(&self.schema) {
                proof {
                    assert(rows_view(rows@)[i as int] == rows@[i as int]@);
                }
                let mut text = "Row ".to_owned();
                text.append(crate::text::decimal_text(i).as_str());
                text.append(" has incompatible schema");
                return Err(text);
            }
            i += 1;
        }
        let mut taken = Dataset::new(self.id, another_handle(&self.schema), None);
        core::mem::swap(self, &mut taken);
        proof {
            use_type_invariant(&taken);
        }
        let Dataset { id, schema, rows: _, metadata, indices: _, lazy_expressions } = taken;
        let indices: NameMap<Index> = NameMap::new();
        proof {
            assert(indices.names_view() =~= Seq::<Seq<char>>::empty());
            assert(indices.items_view() =~= Seq::<Index>::empty());
        }
        *self = Self::assemble(id, schema, rows, metadata, indices, lazy_expressions);
        Ok(())
    }

    /// The columns of the given names, in the order given, as a new
    /// dataset without indices. The registry keeps the expressions of the
    /// columns selected. Fails when the schema lacks one of the names.
    pub fn select(&self, column_names: &[&str]) -> (r: Result<Self, String>)
        ensures
            r is Ok <==> has_all(self@.schema, texts_view(column_names@)),
            r matches Ok(d) ==> d@.id == self@.id && d@.name == self@.name && d@.schema
                == projected_fields(
                self@.schema,
                places_of(self@.schema, texts_view(column_names@)),
            ) && d@.rows == Seq::new(
                self@.rows.len(),
                |i: int|
                    TupleView {
                        schema: projected_fields(
                            self@.schema,
                            places_of(self@.schema, texts_view(column_names@)),
                        ),
                        values: projected(
                            self@.rows[i].values,
                            places_of(self@.schema, texts_view(column_names@)),
                        ),
                    },
            ) && d@.index_names.len() == 0 && (forall|name: Seq<char>| (#[trigger] d@.lazy_expr(name)) == if texts_view(column_names@).contains(name) {
                    self@.lazy_expr(name)
                } else {
                    None
                }) && d@.wf(),
            r matches Err(text) ==> text@ == missing_column_text(
                texts_view(column_names@)[first_missing(self@.schema, texts_view(column_names@), 0)],
            ),
    {
        proof {
            use_type_invariant(self);
            self.lemma_view_wf();
        }
        let ghost names = texts_view(column_names@);
        let ghost old_schema = self.schema@;
        let ghost wanted = places_of(old_schema, names);
        let mut places: Vec<usize> = Vec::with_capacity(column_names.len());
        let mut fields: Vec<Field> = Vec::with_capacity(column_names.len());
        let mut j: usize = 0;
        while j < column_names.len()
            invariant
                names == texts_view(column_names@),
                old_schema == self.schema@,
                wanted == places_of(old_schema, names),
                j <= column_names@.len(),
                places@.len() == j,
                fields@.len() == j,
                forall|k: int| 0 <= k < j ==> position_of(old_schema, #[trigger] names[k]) is Some,
                forall|k: int|
                    0 <= k < j ==> (#[trigger] places@[k]) as int == wanted[k] && places@[k]
                        < old_schema.len(),
                forall|k: int| 0 <= k < j ==> (#[trigger] fields@[k])@ == old_schema[wanted[k]],
                old_schema == self@.schema,
                first_missing(old_schema, names, 0) == first_missing(old_schema, names, j as int),
            decreases column_names@.len() - j,
        {
            let name = column_names[j];
            proof {
                assert(names[j as int] == name@);
            }
            match self.schema.get_field_index(name) {
                Some(place) => {
                    proof {
                        assert(old_schema[place as int] == self.schema.fields@[place as int]@);
                    }
                    places.push(place);
                    fields.push(self.schema.fields[place].clone());
                },
                None => {
                    let mut text = "Column '".to_owned();
                    text.append(name);
                    text.append("' not found");
                    return Err(text);
                },
            }
            j += 1;
        }
        let narrow = Schema::new(fields);
        proof {
            assert(narrow@ =~= projected_fields(old_schema, wanted));
        }
        let narrow = Arc::new(narrow);
        let ghost all = rows_view(self.rows@);
        let mut rows: Vec<Tuple> = Vec::with_capacity(self.rows.len());
        let mut i: usize = 0;
        while i < self.rows.len()
            invariant
                self.inv(),
                all == rows_view(self.rows@),
                old_schema == self.schema@,
                narrow@ == projected_fields(old_schema, wanted),
                wanted.len() == places@.len(),
                forall|k: int|
                    0 <= k < places@.len() ==> (#[trigger] places@[k]) as int == wanted[k]
                        && places@[k] < old_schema.len(),
                i <= self.rows@.len(),
                rows@.len() == i,
                forall|k: int|
                    0 <= k < i ==> (#[trigger] rows@[k])@ == (TupleView {
                        schema: narrow@,
                        values: projected(all[k].values, wanted),
                    }) && rows@[k]@.wf(),
            decreases self.rows@.len() - i,
        {
            let stored = self.rows[i].values();
            proof {
                assert(all[i as int] == self.rows@[i as int]@);
                assert(all[i as int].wf());
            }
            let mut values: Vec<Value> = Vec::with_capacity(places.len());
            let mut k: usize = 0;
            while k < places.len()
                invariant
                    views_of(stored@) == all[i as int].values,
                    stored@.len() == old_schema.len(),
                    wanted.len() == places@.len(),
                    forall|x: int|
                        0 <= x < places@.len() ==> (#[trigger] places@[x]) as int == wanted[x]
                            && places@[x] < old_schema.len(),
                    k <= places@.len(),
                    values@.len() == k,
                    forall|x: int|
                        0 <= x < k ==> (#[trigger] values@[x])@ == all[i as int].values[wanted[x]],
                decreases places@.len() - k,
            {
                let place = places[k];
                proof {
                    assert(views_of(stored@)[place as int] == stored@[place as int]@);
                }
                values.push(stored[place].clone());
                k += 1;
            }
            proof {
                assert(views_of(values@) =~= projected(all[i as int].values, wanted));
                assert forall|x: int| 0 <= x < narrow@.len() implies (#[trigger] narrow@[x]).accepts(
                    views_of(values@)[x],
                ) by {
                    assert(places@[x] as int == wanted[x]);
                    assert(all[i as int].schema[wanted[x]].accepts(
                        all[i as int].values[wanted[x]],
                    ));
                }
            }
            match Tuple::new(another_handle(&narrow), values) {
                Ok(tuple) => rows.push(tuple),
                Err(e) => {
                    return Err(e);
                },
            }
            i += 1;
        }
        let mut lazy: NameMap<Expr> = NameMap::new();
        let mut j: usize = 0;
        proof {
            assert(names.take(0) =~= Seq::<Seq<char>>::empty());
            assert forall|name: Seq<char>| #[trigger] registered(&lazy, name) is None by {
                lemma_name_position(lazy.names_view(), name);
            }
        }
        while j < column_names.len()
            invariant
                self.inv(),
                names == texts_view(column_names@),
                old_schema == self.schema@,
                wanted == places_of(old_schema, names),
                narrow@ == projected_fields(old_schema, wanted),
                has_all(old_schema, names),
                j <= column_names@.len(),
                lazy.wf(),
                forall|name: Seq<char>| (#[trigger] registered(&lazy, name)) == if names.take(j as int).contains(name) {
                        registered(&self.lazy_expressions, name)
                    } else {
                        None
                    },
                forall|k: int|
                    0 <= k < lazy.names_view().len() ==> names.contains(
                        #[trigger] lazy.names_view()[k],
                    ) && registered(&self.lazy_expressions, lazy.names_view()[k]) is Some,
            decreases column_names@.len() - j,
        {
            let name = column_names[j];
            let ghost before = lazy;
            proof {
                assert(names[j as int] == name@);
                assert(names.take(j + 1) =~= names.take(j as int).push(name@));
            }
            match self.lazy_expressions.get(name) {
                Some(expr) => {
                    let copy = expr.clone();
                    lazy.insert(name.to_owned(), copy);
                    proof {
                        assert forall|other: Seq<char>| (#[trigger] registered(&lazy, other)) == if names.take(j + 1).contains(other) {
                                registered(&self.lazy_expressions, other)
                            } else {
                                None
                            } by {
                            crate::stats::lemma_after_insert(&before, &lazy, name@, copy, other);
                            assert(registered(&before, other) == if names.take(j as int).contains(
                                other,
                            ) {
                                registered(&self.lazy_expressions, other)
                            } else {
                                None
                            });
                            if other != name@ {
                                lemma_take_push_contains(names.take(j as int), name@, other);
                            } else {
                                assert(names.take(j + 1)[j as int] == name@);
                                assert(copy@ == self.lazy_expressions.item(name@)@);
                            }
                        }
                        assert forall|k: int| 0 <= k < lazy.names_view().len() implies names.contains(
                            #[trigger] lazy.names_view()[k],
                        ) && registered(&self.lazy_expressions, lazy.names_view()[k]) is Some by {
                            lemma_name_position(before.names_view(), name@);
                            if k < before.names_view().len() {
                                assert(lazy.names_view()[k] == before.names_view()[k]);
                            } else {
                                assert(lazy.names_view()[k] == name@);
                                assert(names[j as int] == name@);
                            }
                        }
                    }
                },
                None => {
                    proof {
                        assert forall|other: Seq<char>| (#[trigger] registered(&lazy, other)) == if names.take(j + 1).contains(other) {
                                registered(&self.lazy_expressions, other)
                            } else {
                                None
                            } by {
                            if other != name@ {
                                lemma_take_push_contains(names.take(j as int), name@, other);
                            } else {
                                if names.take(j as int).contains(other) {
                                } else {
                                    assert(registered(&lazy, other) is None);
                                }
                            }
                        }
                    }
                },
            }
            j += 1;
        }
        proof {
            assert(names.take(column_names@.len() as int) =~= names);
            assert forall|k: int| 0 <= k < lazy.names_view().len() implies is_lazy_column(
                narrow@,
                #[trigger] lazy.names_view()[k],
            ) by {
                let n = lazy.names_view()[k];
                lemma_name_position(self.lazy_expressions.names_view(), n);
                let q = name_position(self.lazy_expressions.names_view(), n).unwrap();
                assert(is_lazy_column(old_schema, self.lazy_expressions.names_view()[q]));
                lemma_selected_lazy(old_schema, names, n);
            }
            assert forall|k: int| 0 <= k < rows_view(rows@).len() implies (#[trigger] rows_view(
                rows@,
            )[k]).schema == narrow@ && rows_view(rows@)[k].wf() by {
                assert(rows@[k]@.wf());
            }
            assert(rows_view(rows@) =~= Seq::new(
                all.len(),
                |i: int| TupleView { schema: narrow@, values: projected(all[i].values, wanted) },
            ));
        }
        let indices: NameMap<Index> = NameMap::new();
        proof {
            assert(indices.names_view() =~= Seq::<Seq<char>>::empty());
            assert(indices.items_view() =~= Seq::<Index>::empty());
        }
        let ghost lazy_map = lazy;
        let result = Self::assemble(self.id, narrow, rows, self.shell(), indices, lazy);
        proof {
            assert forall|name: Seq<char>| (#[trigger] result@.lazy_expr(name)) == if names.contains(name) {
                    self@.lazy_expr(name)
                } else {
                    None
                } by {
                self.lemma_lazy_expr(name);
                lemma_name_position(lazy_map.names_view(), name);
                assert(registered(&lazy_map, name) == if names.contains(name) {
                    registered(&self.lazy_expressions, name)
                } else {
                    None
                });
                assert(result@.lazy_expr(name) == registered(&lazy_map, name));
            }
        }
        Ok(result)
    }
}

/// A name is in a list with one more name if it is that name or in the
/// list.
pub proof fn lemma_take_push_contains(names: Seq<Seq<char>>, last: Seq<char>, name: Seq<char>)
    requires
        name != last,
    ensures
        names.push(last).contains(name) == names.contains(name),
{
    if names.contains(name) {
        let i = choose|i: int| 0 <= i < names.len() && names[i] == name;
        assert(names.push(last)[i] == name);
    }
    if names.push(last).contains(name) {
        let i = choose|i: int| 0 <= i < names.push(last).len() && names.push(last)[i] == name;
        assert(names[i] == name);
    }
}

/// The position of a name after an insertion: that of the inserted name is
/// where it was or at the end, that of any other name where it was.
pub proof fn lemma_names_after_insert(names: Seq<Seq<char>>, inserted: Seq<char>, name: Seq<char>)
    ensures
        name != inserted ==> name_position(names_after_insert(names, inserted), name)
            == name_position(names, name),
        name == inserted ==> name_position(names_after_insert(names, inserted), name) == Some(
            match name_position(names, inserted) {
                Some(k) => k,
                None => names.len() as int,
            },
        ),
{
    if name_position(names, inserted) is None {
        assert(names.push(inserted).drop_last() =~= names);
    }
}

/// A lazy column that is selected is a lazy column of the selection.
pub proof fn lemma_selected_lazy(schema: Seq<FieldView>, names: Seq<Seq<char>>, name: Seq<char>)
    requires
        has_all(schema, names),
        names.contains(name),
        is_lazy_column(schema, name),
    ensures
        is_lazy_column(projected_fields(schema, places_of(schema, names)), name),
{
    let narrow = projected_fields(schema, places_of(schema, names));
    let at = choose|i: int| 0 <= i < names.len() && names[i] == name;
    assert forall|j: int| 0 <= j < narrow.len() implies (#[trigger] narrow[j]).name == names[j] by {
        lemma_position_of(schema, names[j]);
    }
    lemma_position_of(narrow, name);
    assert(narrow[at].name == name);
    let found = position_of(narrow, name).unwrap();
    assert(narrow[found].name == names[found]);
}

/// In rows sorted upwards by a column no row with `Null` in the column
/// follows a row without; in rows sorted downwards none precedes a row
/// without.
pub proof fn law_sorted_nulls(rows: Seq<TupleView>, place: int, ascending: bool)
    ensures
        ({
            let sorted = arranged(
                rows,
                sorted_order(stored_column(rows, place), ascending, rows.len()),
            );
            &&& sorted.len() == rows.len()
            &&& forall|i: int, j: int|
                0 <= i < j < sorted.len() ==> if ascending {
                    (#[trigger] sorted[j]).values[place] is Null ==> (
                    #[trigger] sorted[i]).values[place] is Null
                } else {
                    sorted[i].values[place] is Null ==> sorted[j].values[place] is Null
                }
        }),
{
    let keys = stored_column(rows, place);
    let order = sorted_order(keys, ascending, rows.len());
    crate::sort::lemma_sorted_order_is_permutation(keys, ascending, rows.len());
    crate::sort::law_nulls_at_end(keys, ascending, rows.len());
    let sorted = arranged(rows, order);
    assert forall|i: int, j: int| 0 <= i < j < sorted.len() implies if ascending {
        (#[trigger] sorted[j]).values[place] is Null ==> (#[trigger] sorted[i]).values[place]
            is Null
    } else {
        sorted[i].values[place] is Null ==> sorted[j].values[place] is Null
    } by {
        assert(0 <= order[i] < rows.len());
        assert(0 <= order[j] < rows.len());
        assert(keys[order[i]] == rows[order[i]].values[place]);
        assert(keys[order[j]] == rows[order[j]].values[place]);
    }
}

} // verus!

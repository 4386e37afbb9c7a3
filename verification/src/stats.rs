//! Statistics of the columns of a dataset.

use crate::names::{lemma_name_position, name_position, NameMap};
use crate::order::Relation;
use crate::tuple::{position_of, FieldView, Schema, Tuple, TupleView};
use crate::value::{Value, ValueType, ValueView};
use vstd::prelude::*;

verus! {

/// Statistics of one column.
#[derive(Debug)]
pub struct ColumnStats {
    pub value_type: ValueType,
    /// Number of rows that hold `Null` in the column.
    pub null_count: usize,
    /// The least value that is not `Null`, if any.
    pub min: Option<Value>,
    /// The greatest value that is not `Null`, if any.
    pub max: Option<Value>,
}

/// Mathematical model of [`ColumnStats`].
pub struct ColumnStatsView {
    pub value_type: ValueType,
    pub null_count: nat,
    pub min: Option<ValueView>,
    pub max: Option<ValueView>,
}

impl View for ColumnStats {
    type V = ColumnStatsView;

    open spec fn view(&self) -> ColumnStatsView {
        ColumnStatsView {
            value_type: self.value_type,
            null_count: self.null_count as nat,
            min: match self.min {
                Some(v) => Some(v@),
                None => None,
            },
            max: match self.max {
                Some(v) => Some(v@),
                None => None,
            },
        }
    }
}

impl Clone for ColumnStats {
    fn clone(&self) -> (r: Self)
        ensures
            r@ == self@,
    {
        ColumnStats {
            value_type: self.value_type,
            null_count: self.null_count,
            min: match &self.min {
                Some(v) => Some(v.clone()),
                None => None,
            },
            max: match &self.max {
                Some(v) => Some(v.clone()),
                None => None,
            },
        }
    }
}

/// The values of a column, row by row: `None` where a row has no column
/// of that name.
pub open spec fn column(rows: Seq<TupleView>, name: Seq<char>) -> Seq<Option<ValueView>> {
    Seq::new(rows.len(), |i: int| rows[i].get(name))
}

/// Number of rows that hold `Null`.
pub open spec fn null_count(values: Seq<Option<ValueView>>) -> nat
    decreases values.len(),
{
    if values.len() == 0 {
        0
    } else {
        null_count(values.drop_last()) + if values.last() == Some(ValueView::Null) {
            1nat
        } else {
            0nat
        }
    }
}

/// The extreme of the values that are not `Null`, taken in from the first
/// to the last: a value replaces the current extreme where it stands in
/// the wanted relation to it.
pub open spec fn extreme_of(values: Seq<Option<ValueView>>, wanted: Relation) -> Option<ValueView>
    decreases values.len(),
{
    if values.len() == 0 {
        None
    } else {
        let before = extreme_of(values.drop_last(), wanted);
        match values.last() {
            Some(value) => if value is Null {
                before
            } else {
                match before {
                    None => Some(value),
                    Some(current) => if value.relation(current) == Some(wanted) {
                        Some(value)
                    } else {
                        before
                    },
                }
            },
            None => before,
        }
    }
}

/// The statistics of a column of the given type over the given values.
pub open spec fn stats_of(value_type: ValueType, values: Seq<Option<ValueView>>)
    -> ColumnStatsView {
    ColumnStatsView {
        value_type,
        null_count: null_count(values),
        min: extreme_of(values, Relation::Less),
        max: extreme_of(values, Relation::Greater),
    }
}

/// The count of `Null`s never exceeds the number of values.
pub proof fn lemma_null_count_bound(values: Seq<Option<ValueView>>)
    ensures
        null_count(values) <= values.len(),
    decreases values.len(),
{
    if values.len() > 0 {
        lemma_null_count_bound(values.drop_last());
    }
}

/// Whether a map of statistics is the one derived from a schema and rows:
/// it has an entry for exactly the names of the schema, and each entry
/// holds the statistics of its column.
pub open spec fn stats_derived(
    stats: &NameMap<ColumnStats>,
    schema: Seq<FieldView>,
    rows: Seq<TupleView>,
) -> bool {
    &&& stats.wf()
    &&& forall|name: Seq<char>| (#[trigger] stats.has(name)) <==> position_of(schema, name) is Some
    &&& forall|name: Seq<char>| #[trigger]
        stats.has(name) ==> stats.item(name)@ == stats_of(
            schema[position_of(schema, name).unwrap()].value_type,
            column(rows, name),
        )
}

/// The views of a list of rows.
pub open spec fn rows_view(rows: Seq<Tuple>) -> Seq<TupleView> {
    rows.map_values(|t: Tuple| t@)
}

/// The statistics of one column: see [`stats_of`].
pub fn column_stats(name: &str, value_type: ValueType, rows: &Vec<Tuple>) -> (r: ColumnStats)
    ensures
        r@ == stats_of(value_type, column(rows_view(rows@), name@)),
{
    let ghost values = column(rows_view(rows@), name@);
    let mut nulls: usize = 0;
    let mut min: Option<Value> = None;
    let mut max: Option<Value> = None;
    let mut i: usize = 0;
    while i < rows.len()
        invariant
            values == column(rows_view(rows@), name@),
            i <= rows@.len(),
            nulls == null_count(values.take(i as int)),
            nulls <= i,
            (match min {
                Some(v) => Some(v@),
                None => None,
            }) == extreme_of(values.take(i as int), Relation::Less),
            (match max {
                Some(v) => Some(v@),
                None => None,
            }) == extreme_of(values.take(i as int), Relation::Greater),
        decreases rows@.len() - i,
    {
        proof {
            assert(values.take(i + 1).drop_last() =~= values.take(i as int));
            assert(values.take(i + 1).last() == rows@[i as int]@.get(name@));
        }
        match rows[i].get(name) {
            Some(value) => {
                if value.is_null() {
                    nulls += 1;
                } else {
                    let lower = match &min {
                        Some(current) => match value.relation(current) {
                            Some(Relation::Less) => true,
                            _ => false,
                        },
                        None => true,
                    };
                    if lower {
                        min = Some(value.clone());
                    }
                    let higher = match &max {
                        Some(current) => match value.relation(current) {
                            Some(Relation::Greater) => true,
                            _ => false,
                        },
                        None => true,
                    };
                    if higher {
                        max = Some(value.clone());
                    }
                }
            },
            None => {},
        }
        i += 1;
    }
    proof {
        assert(values.take(rows@.len() as int) =~= values);
    }
    ColumnStats { value_type, null_count: nulls, min, max }
}

/// The statistics of every column of a schema over the given rows.
pub fn compute_stats(schema: &Schema, rows: &Vec<Tuple>) -> (r: NameMap<ColumnStats>)
    ensures
        stats_derived(&r, schema@, rows_view(rows@)),
{
    let ghost rv = rows_view(rows@);
    let mut stats: NameMap<ColumnStats> = NameMap::new();
    let mut k: usize = 0;
    proof {
        assert(schema@.take(0) =~= Seq::<FieldView>::empty());
        assert forall|name: Seq<char>| !(#[trigger] stats.has(name)) by {
            lemma_name_position(stats.names_view(), name);
        }
    }
    while k < schema.fields.len()
        invariant
            rv == rows_view(rows@),
            k <= schema.fields@.len(),
            stats_derived(&stats, schema@.take(k as int), rv),
        decreases schema.fields@.len() - k,
    {
        let field = &schema.fields[k];
        let entry = column_stats(field.name.as_str(), field.value_type, rows);
        let ghost before = stats;
        let ghost prefix = schema@.take(k as int);
        let ghost longer = schema@.take(k + 1);
        let ghost field_name = field.name@;
        stats.insert(field.name.clone(), entry);
        proof {
            assert(longer.drop_last() =~= prefix);
            assert(longer.last() == field@);
            assert forall|name: Seq<char>| (#[trigger] stats.has(name)) <==> position_of(longer, name) is Some by {
                lemma_name_position(stats.names_view(), name);
                lemma_name_position(before.names_view(), name);
                lemma_after_insert(&before, &stats, field_name, entry, name);
                assert(before.has(name) <==> position_of(prefix, name) is Some);
            }
            assert forall|name: Seq<char>| #[trigger] stats.has(name) implies stats.item(name)@
                == stats_of(
                longer[position_of(longer, name).unwrap()].value_type,
                column(rv, name),
            ) by {
                lemma_after_insert(&before, &stats, field_name, entry, name);
                crate::tuple::lemma_position_of(longer, name);
                crate::tuple::lemma_position_of(prefix, name);
                if name != field_name {
                    assert(before.has(name));
                    assert(longer[position_of(prefix, name).unwrap()] == prefix[position_of(
                        prefix,
                        name,
                    ).unwrap()]);
                }
            }
        }
        k += 1;
    }
    proof {
        assert(schema@.take(schema@.len() as int) =~= schema@);
    }
    stats
}

/// What a map holds under a name after an insertion: the inserted item
/// under the inserted name, and what it held before under any other.
pub proof fn lemma_after_insert<T>(
    before: &NameMap<T>,
    after: &NameMap<T>,
    inserted: Seq<char>,
    item: T,
    name: Seq<char>,
)
    requires
        before.wf(),
        after.wf(),
        match name_position(before.names_view(), inserted) {
            Some(i) => after.names_view() == before.names_view() && after.items_view()
                == before.items_view().update(i, item),
            None => after.names_view() == before.names_view().push(inserted)
                && after.items_view() == before.items_view().push(item),
        },
    ensures
        name == inserted ==> after.has(name) && after.item(name) == item,
        name != inserted ==> (after.has(name) <==> before.has(name)),
        name != inserted && before.has(name) ==> after.item(name) == before.item(name),
{
    lemma_name_position(before.names_view(), inserted);
    lemma_name_position(before.names_view(), name);
    lemma_name_position(after.names_view(), name);
    match name_position(before.names_view(), inserted) {
        Some(i) => {
            if name == inserted {
            } else if before.has(name) {
                let j = name_position(before.names_view(), name).unwrap();
                assert(j != i);
            }
        },
        None => {
            let names = before.names_view();
            let more = names.push(inserted);
            assert(more.drop_last() =~= names);
            assert(more.last() == inserted);
            if name != inserted && before.has(name) {
                let j = name_position(names, name).unwrap();
                assert(after.items_view()[j] == before.items_view()[j]);
            }
        },
    }
}

} // verus!

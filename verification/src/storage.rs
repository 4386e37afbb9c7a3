//! Where datasets and tensors are kept on disk.
//!
//! The library names the files; reading and writing them is left to the
//! program around it.

use crate::dataset::{Dataset, DatasetView};
use crate::float::float_of_int;
use crate::order::same_text;
use crate::stats::rows_view;
use crate::tuple::{FieldView, Tuple, TupleView};
use crate::value::{Value, ValueType, ValueView};
use vstd::prelude::*;
use vstd::string::StringExecFns;

verus! {

/// Storage in a directory: datasets under `datasets/`, tensors under
/// `tensors/`.
#[derive(Debug)]
pub struct ParquetStorage {
    base_path: String,
}

impl View for ParquetStorage {
    type V = Seq<char>;

    /// The directory.
    closed spec fn view(&self) -> Seq<char> {
        self.base_path@
    }
}

impl ParquetStorage {
    /// Storage in the given directory.
    pub fn new(base_path: &str) -> (r: Self)
        ensures
            r@ == base_path@,
    {
        ParquetStorage { base_path: base_path.to_owned() }
    }

    /// The directory.
    pub fn base_path(&self) -> (r: &str)
        ensures
            r@ == self@,
    {
        self.base_path.as_str()
    }

    /// The directory of the datasets.
    pub fn datasets_dir(&self) -> (r: String)
        ensures
            r@ == self@ + "/datasets"@,
    {
        let mut path = self.base_path.clone();
        path.append("/datasets");
        path
    }

    /// The directory of the tensors.
    pub fn tensors_dir(&self) -> (r: String)
        ensures
            r@ == self@ + "/tensors"@,
    {
        let mut path = self.base_path.clone();
        path.append("/tensors");
        path
    }

    /// The file that holds the rows of a dataset.
    pub fn dataset_path(&self, name: &str) -> (r: String)
        ensures
            r@ == self@ + "/datasets/"@ + name@ + ".parquet"@,
    {
        let mut path = self.base_path.clone();
        path.append("/datasets/");
        path.append(name);
        path.append(".parquet");
        path
    }

    /// The file that holds the metadata of a dataset.
    pub fn metadata_path(&self, name: &str) -> (r: String)
        ensures
            r@ == self@ + "/datasets/"@ + name@ + ".meta.json"@,
    {
        let mut path = self.base_path.clone();
        path.append("/datasets/");
        path.append(name);
        path.append(".meta.json");
        path
    }

    /// The file that holds a tensor.
    pub fn tensor_path(&self, name: &str) -> (r: String)
        ensures
            r@ == self@ + "/tensors/"@ + name@ + ".json"@,
    {
        let mut path = self.base_path.clone();
        path.append("/tensors/");
        path.append(name);
        path.append(".json");
        path
    }
}

/// The values of one column as they are written out: integers, numbers,
/// text and booleans keep their type, and the values of every other
/// column are kept as they are. `None` stands for a missing value.
#[derive(Debug)]
pub enum ColumnData {
    Ints(Vec<Option<i64>>),
    Floats(Vec<Option<u32>>),
    Texts(Vec<Option<String>>),
    Bools(Vec<Option<bool>>),
    Others(Vec<Option<Value>>),
}

/// The text of a piece of text that may be missing.
pub open spec fn text_view(t: Option<String>) -> Option<Seq<char>> {
    match t {
        Some(text) => Some(text@),
        None => None,
    }
}

/// The texts of pieces of text that may be missing.
pub open spec fn text_views(list: Seq<Option<String>>) -> Seq<Option<Seq<char>>> {
    list.map_values(|t: Option<String>| text_view(t))
}

/// The model of a value that may be missing.
pub open spec fn value_view(t: Option<Value>) -> Option<ValueView> {
    match t {
        Some(value) => Some(value@),
        None => None,
    }
}

/// The models of values that may be missing.
pub open spec fn value_views(list: Seq<Option<Value>>) -> Seq<Option<ValueView>> {
    list.map_values(|t: Option<Value>| value_view(t))
}

/// Mathematical model of [`ColumnData`].
pub enum ColumnDataView {
    Ints(Seq<Option<i64>>),
    Floats(Seq<Option<u32>>),
    Texts(Seq<Option<Seq<char>>>),
    Bools(Seq<Option<bool>>),
    Others(Seq<Option<ValueView>>),
}

impl View for ColumnData {
    type V = ColumnDataView;

    open spec fn view(&self) -> ColumnDataView {
        match self {
            ColumnData::Ints(v) => ColumnDataView::Ints(v@),
            ColumnData::Floats(v) => ColumnDataView::Floats(v@),
            ColumnData::Texts(v) => ColumnDataView::Texts(text_views(v@)),
            ColumnData::Bools(v) => ColumnDataView::Bools(v@),
            ColumnData::Others(v) => ColumnDataView::Others(value_views(v@)),
        }
    }
}

/// A column as it is written out: its name, whether it may miss
/// values, and its values.
#[derive(Debug)]
pub struct StoredColumn {
    pub name: String,
    pub nullable: bool,
    pub data: ColumnData,
}

/// Mathematical model of a [`StoredColumn`].
pub struct StoredColumnView {
    pub name: Seq<char>,
    pub nullable: bool,
    pub data: ColumnDataView,
}

impl View for StoredColumn {
    type V = StoredColumnView;

    open spec fn view(&self) -> StoredColumnView {
        StoredColumnView { name: self.name@, nullable: self.nullable, data: self.data@ }
    }
}

/// The position of the first field of a name from `from` on, or the
/// number of fields when there is none.
pub open spec fn first_named(fields: Seq<FieldView>, name: Seq<char>, from: int) -> int
    decreases fields.len() - from,
{
    if 0 <= from < fields.len() && fields[from].name != name {
        first_named(fields, name, from + 1)
    } else {
        from
    }
}

/// The value of a row in the column of a name: the value at the place
/// of the first field of that name, and `Null` when the row has no such
/// field or no value at that place.
pub open spec fn cell_of(row: TupleView, name: Seq<char>) -> ValueView {
    let place = first_named(row.schema, name, 0);
    if place < row.schema.len() && place < row.values.len() {
        row.values[place]
    } else {
        ValueView::Null
    }
}

/// The values of the rows in the column of a name.
pub open spec fn cells_of(rows: Seq<TupleView>, name: Seq<char>) -> Seq<ValueView> {
    rows.map_values(|row: TupleView| cell_of(row, name))
}

/// A value as it is written into a column of integers.
pub open spec fn as_int_cell(value: ValueView) -> Option<i64> {
    match value {
        ValueView::Int(i) => Some(i),
        _ => None,
    }
}

/// A value as it is written into a column of numbers: an integer is
/// converted.
pub open spec fn as_float_cell(value: ValueView) -> Option<u32> {
    match value {
        ValueView::Float(bits) => Some(bits),
        ValueView::Int(i) => Some(float_of_int(i as int)),
        _ => None,
    }
}

/// A value as it is written into a column of text.
pub open spec fn as_text_cell(value: ValueView) -> Option<Seq<char>> {
    match value {
        ValueView::String(text) => Some(text),
        _ => None,
    }
}

/// A value as it is written into a column of booleans.
pub open spec fn as_bool_cell(value: ValueView) -> Option<bool> {
    match value {
        ValueView::Bool(b) => Some(b),
        _ => None,
    }
}

/// A value as it is written into a column of any other type.
pub open spec fn as_other_cell(value: ValueView) -> Option<ValueView> {
    match value {
        ValueView::Null => None,
        other => Some(other),
    }
}

/// The values of a column of a type as they are written out. A value of
/// another type than its column is written as a missing value.
pub open spec fn column_data(value_type: ValueType, cells: Seq<ValueView>) -> ColumnDataView {
    match value_type {
        ValueType::Int => ColumnDataView::Ints(cells.map_values(|v: ValueView| as_int_cell(v))),
        ValueType::Float => ColumnDataView::Floats(
            cells.map_values(|v: ValueView| as_float_cell(v)),
        ),
        ValueType::String => ColumnDataView::Texts(
            cells.map_values(|v: ValueView| as_text_cell(v)),
        ),
        ValueType::Bool => ColumnDataView::Bools(cells.map_values(|v: ValueView| as_bool_cell(v))),
        _ => ColumnDataView::Others(cells.map_values(|v: ValueView| as_other_cell(v))),
    }
}

/// The column of a field as it is written out.
pub open spec fn stored_column(field: FieldView, rows: Seq<TupleView>) -> StoredColumnView {
    StoredColumnView {
        name: field.name,
        nullable: field.nullable,
        data: column_data(field.value_type, cells_of(rows, field.name)),
    }
}

/// The columns of a dataset as they are written out, one for each field
/// of its schema.
pub open spec fn stored_columns(dataset: DatasetView) -> Seq<StoredColumnView> {
    dataset.schema.map_values(|field: FieldView| stored_column(field, dataset.rows))
}

/// The value of a row in the column of a name: see [`cell_of`].
pub fn cell<'a>(row: &'a Tuple, name: &str) -> (r: Option<&'a Value>)
    ensures
        match r {
            Some(value) => value@ == cell_of(row@, name@),
            None => cell_of(row@, name@) is Null,
        },
{
    let fields = &row.schema().fields;
    let mut k: usize = 0;
    while k < fields.len()
        invariant
            k <= fields@.len(),
            fields@.map_values(|f: crate::tuple::Field| f@) == row@.schema,
            first_named(row@.schema, name@, 0) == first_named(row@.schema, name@, k as int),
        decreases fields@.len() - k,
    {
        proof {
            assert(row@.schema[k as int] == fields@[k as int]@);
        }
        if same_text(fields[k].name.as_str(), name) {
            let values = row.values();
            if k < values.len() {
                proof {
                    assert(crate::value::views_of(values@)[k as int] == values@[k as int]@);
                }
                return Some(&values[k]);
            }
            return None;
        }
        k += 1;
    }
    None
}

/// The column of a field of a dataset as it is written out: see
/// [`stored_column`].
pub fn column_of(dataset: &Dataset, place: usize) -> (r: StoredColumn)
    requires
        place < dataset@.schema.len(),
    ensures
        r@ == stored_column(dataset@.schema[place as int], dataset@.rows),
{
    let field = &dataset.schema().fields[place];
    let rows = dataset.rows();
    let ghost wanted = dataset@.schema[place as int];
    let ghost cells = cells_of(dataset@.rows, wanted.name);
    proof {
        assert(wanted == field@);
        assert forall|j: int| 0 <= j < rows@.len() implies #[trigger] cells[j] == cell_of(
            rows@[j]@,
            wanted.name,
        ) by {
            assert(rows_view(rows@)[j] == rows@[j]@);
        }
    }
    let name = field.name.as_str();
    let data = match field.value_type {
        ValueType::Int => {
            let mut out: Vec<Option<i64>> = Vec::new();
            let mut j: usize = 0;
            while j < rows.len()
                invariant
                    j <= rows@.len(),
                    name@ == wanted.name,
                    cells.len() == rows@.len(),
                    forall|i: int| 0 <= i < rows@.len() ==> #[trigger] cells[i] == cell_of(
                        rows@[i]@,
                        wanted.name,
                    ),
                    out@ == cells.take(j as int).map_values(|v: ValueView| as_int_cell(v)),
                decreases rows@.len() - j,
            {
                let item = match cell(&rows[j], name) {
                    Some(Value::Int(i)) => Some(*i),
                    _ => None,
                };
                out.push(item);
                proof {
                    assert(cells.take(j + 1) =~= cells.take(j as int).push(cells[j as int]));
                    assert(out@ =~= cells.take(j + 1).map_values(|v: ValueView| as_int_cell(v)));
                }
                j += 1;
            }
            proof {
                assert(cells.take(rows@.len() as int) =~= cells);
            }
            ColumnData::Ints(out)
        },
        ValueType::Float => {
            let mut out: Vec<Option<u32>> = Vec::new();
            let mut j: usize = 0;
            while j < rows.len()
                invariant
                    j <= rows@.len(),
                    name@ == wanted.name,
                    cells.len() == rows@.len(),
                    forall|i: int| 0 <= i < rows@.len() ==> #[trigger] cells[i] == cell_of(
                        rows@[i]@,
                        wanted.name,
                    ),
                    out@ == cells.take(j as int).map_values(|v: ValueView| as_float_cell(v)),
                decreases rows@.len() - j,
            {
                let item = match cell(&rows[j], name) {
                    Some(Value::Float(bits)) => Some(*bits),
                    Some(Value::Int(i)) => Some(crate::float::from_int(*i as i128)),
                    _ => None,
                };
                out.push(item);
                proof {
                    assert(cells.take(j + 1) =~= cells.take(j as int).push(cells[j as int]));
                    assert(out@ =~= cells.take(j + 1).map_values(|v: ValueView| as_float_cell(v)));
                }
                j += 1;
            }
            proof {
                assert(cells.take(rows@.len() as int) =~= cells);
            }
            ColumnData::Floats(out)
        },
        ValueType::String => {
            let mut out: Vec<Option<String>> = Vec::new();
            let ghost mut model: Seq<Option<Seq<char>>> = Seq::empty();
            let mut j: usize = 0;
            proof {
                assert(text_views(out@) =~= model);
                assert(cells.take(0).map_values(|v: ValueView| as_text_cell(v)) =~= model);
            }
            while j < rows.len()
                invariant
                    j <= rows@.len(),
                    name@ == wanted.name,
                    cells.len() == rows@.len(),
                    forall|i: int| 0 <= i < rows@.len() ==> #[trigger] cells[i] == cell_of(
                        rows@[i]@,
                        wanted.name,
                    ),
                    model == cells.take(j as int).map_values(|v: ValueView| as_text_cell(v)),
                    text_views(out@) == model,
                decreases rows@.len() - j,
            {
                let item = match cell(&rows[j], name) {
                    Some(Value::String(text)) => Some(text.clone()),
                    _ => None,
                };
                let ghost added = text_view(item);
                let ghost before = out@;
                out.push(item);
                proof {
                    assert(cells.take(j + 1) =~= cells.take(j as int).push(cells[j as int]));
                    assert(text_views(out@) =~= text_views(before).push(added));
                    model = model.push(added);
                    assert(model =~= cells.take(j + 1).map_values(|v: ValueView| as_text_cell(v)));
                }
                j += 1;
            }
            proof {
                assert(cells.take(rows@.len() as int) =~= cells);
            }
            ColumnData::Texts(out)
        },
        ValueType::Bool => {
            let mut out: Vec<Option<bool>> = Vec::new();
            let mut j: usize = 0;
            while j < rows.len()
                invariant
                    j <= rows@.len(),
                    name@ == wanted.name,
                    cells.len() == rows@.len(),
                    forall|i: int| 0 <= i < rows@.len() ==> #[trigger] cells[i] == cell_of(
                        rows@[i]@,
                        wanted.name,
                    ),
                    out@ == cells.take(j as int).map_values(|v: ValueView| as_bool_cell(v)),
                decreases rows@.len() - j,
            {
                let item = match cell(&rows[j], name) {
                    Some(Value::Bool(b)) => Some(*b),
                    _ => None,
                };
                out.push(item);
                proof {
                    assert(cells.take(j + 1) =~= cells.take(j as int).push(cells[j as int]));
                    assert(out@ =~= cells.take(j + 1).map_values(|v: ValueView| as_bool_cell(v)));
                }
                j += 1;
            }
            proof {
                assert(cells.take(rows@.len() as int) =~= cells);
            }
            ColumnData::Bools(out)
        },
        _ => {
            let mut out: Vec<Option<Value>> = Vec::new();
            let ghost mut model: Seq<Option<ValueView>> = Seq::empty();
            let mut j: usize = 0;
            proof {
                assert(value_views(out@) =~= model);
                assert(cells.take(0).map_values(|v: ValueView| as_other_cell(v)) =~= model);
            }
            while j < rows.len()
                invariant
                    j <= rows@.len(),
                    name@ == wanted.name,
                    cells.len() == rows@.len(),
                    forall|i: int| 0 <= i < rows@.len() ==> #[trigger] cells[i] == cell_of(
                        rows@[i]@,
                        wanted.name,
                    ),
                    model == cells.take(j as int).map_values(|v: ValueView| as_other_cell(v)),
                    value_views(out@) == model,
                decreases rows@.len() - j,
            {
                let item = match cell(&rows[j], name) {
                    Some(Value::Null) => None,
                    Some(value) => Some(value.clone()),
                    None => None,
                };
                let ghost added = value_view(item);
                let ghost before = out@;
                out.push(item);
                proof {
                    assert(cells.take(j + 1) =~= cells.take(j as int).push(cells[j as int]));
                    assert(value_views(out@) =~= value_views(before).push(added));
                    model = model.push(added);
                    assert(model =~= cells.take(j + 1).map_values(|v: ValueView| as_other_cell(v)));
                }
                j += 1;
            }
            proof {
                assert(cells.take(rows@.len() as int) =~= cells);
            }
            ColumnData::Others(out)
        },
    };
    StoredColumn { name: field.name.clone(), nullable: field.nullable, data }
}

/// The columns of a dataset as they are written out: see
/// [`stored_columns`].
pub fn dataset_columns(dataset: &Dataset) -> (r: Vec<StoredColumn>)
    ensures
        r@.map_values(|c: StoredColumn| c@) == stored_columns(dataset@),
{
    let count = dataset.schema().fields.len();
    let mut out: Vec<StoredColumn> = Vec::new();
    let mut k: usize = 0;
    while k < count
        invariant
            count == dataset@.schema.len(),
            k <= count,
            out@.len() == k,
            forall|j: int| 0 <= j < k ==> (#[trigger] out@[j])@ == stored_column(
                dataset@.schema[j],
                dataset@.rows,
            ),
        decreases count - k,
    {
        out.push(column_of(dataset, k));
        k += 1;
    }
    proof {
        assert(out@.map_values(|c: StoredColumn| c@) =~= stored_columns(dataset@));
    }
    out
}

} // verus!

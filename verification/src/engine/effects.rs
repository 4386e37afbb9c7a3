//! What each operation of the engine does, as a relation between the
//! engine before and after it.

use crate::dataset::{DatasetId, DatasetView};
use crate::engine::db::{
    all_numbers, as_number, binary_result, column_added, computed_column_added,
    dataset_created, dataset_replaced, evaluated, index_created, materialized, numbers_of,
    row_appended, rows_replaced, same_store, stacked_kind, unary_result, DatabaseView, TensorDb,
};
use crate::engine::error::EngineError;
use crate::engine::kernels::{
    index_result, matmul_result, reshape_result, scalar_view, slice_multi_result, stack_result,
    SliceSpec,
};
use crate::engine::operations::{BinaryOp, TensorKind, UnaryOp};
use crate::index::Index;
use crate::names::name_position;
use crate::query::logical::ExprView;
use crate::tensor::{product, TensorId, TensorView};
use crate::tuple::{FieldView, TupleView};
use crate::value::{ValueType, ValueView};
use vstd::prelude::*;

verus! {

/// The engine before and after a tensor is stored under a name, with the result:
/// what [`TensorDb::insert_named_with_kind`] does.
pub open spec fn insert_named_with_kind_effect(
    before: &TensorDb,
    after: &TensorDb,
    name: Seq<char>,
    shape: Seq<usize>,
    data: Seq<u32>,
    kind: TensorKind,
    r: Result<(), EngineError>,
) -> bool {
    &&& (before.others_kept(after))
    &&& (after.active().datasets() == before.active().datasets())
    &&& (evaluated(
            before.active()@,
            after.active()@,
            true,
            name,
            if data.len() == product(shape) {
                Some(TensorView { id: TensorId(before.active()@.next_id), dims: shape, data: data })
            } else {
                None
            },
            kind,
            r is Ok,
        ))
    &&& (r matches Err(e) ==> e matches EngineError::Store(inner) && inner is InvalidTensor)
}

/// The engine before and after an operation on one tensor, with the result:
/// what [`TensorDb::eval_unary`] does.
pub open spec fn eval_unary_effect(
    before: &TensorDb,
    after: &TensorDb,
    output_name: Seq<char>,
    input_name: Seq<char>,
    op: UnaryOp,
    r: Result<(), EngineError>,
) -> bool {
    &&& (before.others_kept(after))
    &&& (after.active().datasets() == before.active().datasets())
    &&& (evaluated(
            before.active()@,
            after.active()@,
            before.active()@.tensor(input_name) is Some,
            output_name,
            match before.active()@.tensor(input_name) {
                Some(a) => unary_result(op, a, TensorId(before.active()@.next_id)),
                None => None,
            },
            before.active().kind_of(input_name),
            r is Ok,
        ))
}

/// The engine before and after an operation on two tensors, with the result:
/// what [`TensorDb::eval_binary`] does.
pub open spec fn eval_binary_effect(
    before: &TensorDb,
    after: &TensorDb,
    output_name: Seq<char>,
    left_name: Seq<char>,
    right_name: Seq<char>,
    op: BinaryOp,
    r: Result<(), EngineError>,
) -> bool {
    &&& (before.others_kept(after))
    &&& (after.active().datasets() == before.active().datasets())
    &&& (evaluated(
            before.active()@,
            after.active()@,
            before.active()@.tensor(left_name) is Some && before.active()@.tensor(right_name) is Some,
            output_name,
            match (before.active()@.tensor(left_name), before.active()@.tensor(right_name)) {
                (Some(a), Some(b)) => binary_result(
                    op,
                    before.active().kind_of(left_name).joined(before.active().kind_of(right_name))
                        == TensorKind::Strict,
                    a,
                    b,
                    TensorId(before.active()@.next_id),
                ),
                _ => None,
            },
            before.active().kind_of(left_name).joined(before.active().kind_of(right_name)),
            r is Ok,
        ))
}

/// The engine before and after a matrix product, with the result:
/// what [`TensorDb::eval_matmul`] does.
pub open spec fn eval_matmul_effect(
    before: &TensorDb,
    after: &TensorDb,
    output_name: Seq<char>,
    left_name: Seq<char>,
    right_name: Seq<char>,
    r: Result<(), EngineError>,
) -> bool {
    &&& (before.others_kept(after))
    &&& (after.active().datasets() == before.active().datasets())
    &&& (evaluated(
            before.active()@,
            after.active()@,
            before.active()@.tensor(left_name) is Some && before.active()@.tensor(right_name) is Some,
            output_name,
            match (before.active()@.tensor(left_name), before.active()@.tensor(right_name)) {
                (Some(a), Some(b)) => matmul_result(a, b, TensorId(before.active()@.next_id)),
                _ => None,
            },
            before.active().kind_of(left_name).joined(before.active().kind_of(right_name)),
            r is Ok,
        ))
}

/// The engine before and after a reshaping, with the result:
/// what [`TensorDb::eval_reshape`] does.
pub open spec fn eval_reshape_effect(
    before: &TensorDb,
    after: &TensorDb,
    output_name: Seq<char>,
    input_name: Seq<char>,
    new_shape: Seq<usize>,
    r: Result<(), EngineError>,
) -> bool {
    &&& (before.others_kept(after))
    &&& (after.active().datasets() == before.active().datasets())
    &&& (evaluated(
            before.active()@,
            after.active()@,
            before.active()@.tensor(input_name) is Some,
            output_name,
            match before.active()@.tensor(input_name) {
                Some(a) => reshape_result(a, new_shape, TensorId(before.active()@.next_id)),
                None => None,
            },
            before.active().kind_of(input_name),
            r is Ok,
        ))
}

/// The engine before and after a stacking of tensors, with the result:
/// what [`TensorDb::eval_stack`] does.
pub open spec fn eval_stack_effect(
    before: &TensorDb,
    after: &TensorDb,
    output_name: Seq<char>,
    input_names: Seq<&str>,
    axis: usize,
    r: Result<(), EngineError>,
) -> bool {
    &&& (before.others_kept(after))
    &&& (after.active().datasets() == before.active().datasets())
    &&& ((exists|i: int|
            0 <= i < input_names.len() && before.active()@.tensor(#[trigger] input_names[i]@)
                is None) ==> r is Err && after.active()@ == before.active()@)
    &&& ((forall|i: int|
            0 <= i < input_names.len() ==> before.active()@.tensor(#[trigger] input_names[i]@)
                is Some) ==> evaluated(
            before.active()@,
            after.active()@,
            true,
            output_name,
            stack_result(
                Seq::new(
                    input_names.len(),
                    |i: int| before.active()@.tensor(input_names[i]@).unwrap(),
                ),
                axis,
                TensorId(before.active()@.next_id),
            ),
            stacked_kind(before.active()@, input_names),
            r is Ok,
        ))
}

/// The engine before and after the reading of one element, with the result:
/// what [`TensorDb::eval_index`] does.
pub open spec fn eval_index_effect(
    before: &TensorDb,
    after: &TensorDb,
    output_name: Seq<char>,
    tensor_name: Seq<char>,
    indices: Seq<usize>,
    r: Result<(), EngineError>,
) -> bool {
    &&& (before.others_kept(after))
    &&& (after.active().datasets() == before.active().datasets())
    &&& (evaluated(
            before.active()@,
            after.active()@,
            before.active()@.tensor(tensor_name) is Some,
            output_name,
            match before.active()@.tensor(tensor_name) {
                Some(a) => index_result(a, indices, TensorId(before.active()@.next_id)),
                None => None,
            },
            before.active().kind_of(tensor_name),
            r is Ok,
        ))
}

/// The engine before and after a slicing, with the result:
/// what [`TensorDb::eval_slice`] does.
pub open spec fn eval_slice_effect(
    before: &TensorDb,
    after: &TensorDb,
    output_name: Seq<char>,
    tensor_name: Seq<char>,
    specs: Seq<SliceSpec>,
    r: Result<(), EngineError>,
) -> bool {
    &&& (before.others_kept(after))
    &&& (after.active().datasets() == before.active().datasets())
    &&& (evaluated(
            before.active()@,
            after.active()@,
            before.active()@.tensor(tensor_name) is Some,
            output_name,
            match before.active()@.tensor(tensor_name) {
                Some(a) => slice_multi_result(a, specs, TensorId(before.active()@.next_id)),
                None => None,
            },
            before.active().kind_of(tensor_name),
            r is Ok,
        ))
}

/// The engine before and after the reading of a column into a tensor, with the result:
/// what [`TensorDb::eval_column_access`] does.
pub open spec fn eval_column_access_effect(
    before: &TensorDb,
    after: &TensorDb,
    output_name: Seq<char>,
    dataset_name: Seq<char>,
    column_name: Seq<char>,
    r: Result<(), EngineError>,
) -> bool {
    &&& (before.others_kept(after))
    &&& (after.active().datasets() == before.active().datasets())
    &&& (match before.active().datasets().by_name(dataset_name) {
            Some(d) => match d@.column_values(column_name) {
                Some(values) => if all_numbers(values) {
                    r is Ok && after.active()@ == before.active()@.advanced().bound(
                        output_name,
                        TensorView {
                            id: TensorId(before.active()@.next_id),
                            dims: seq![values.len() as usize],
                            data: numbers_of(values),
                        },
                        TensorKind::Normal,
                    )
                } else {
                    r is Err && after.active()@ == before.active()@
                },
                None => r is Err && after.active()@ == before.active()@,
            },
            None => (r matches Err(EngineError::DatasetNotFound(n)) && n@ == dataset_name)
                && after.active()@ == before.active()@,
        })
}

/// The engine before and after the reading of a field into a tensor, with the result:
/// what [`TensorDb::eval_field_access`] does.
pub open spec fn eval_field_access_effect(
    before: &TensorDb,
    after: &TensorDb,
    output_name: Seq<char>,
    tuple_name: Seq<char>,
    field_name: Seq<char>,
    r: Result<(), EngineError>,
) -> bool {
    &&& (before.others_kept(after))
    &&& (after.active().datasets() == before.active().datasets())
    &&& (match before.active().datasets().by_name(tuple_name) {
            Some(d) => if d@.rows.len() > 0 && d@.rows[0].get(field_name) is Some {
                evaluated(
                    before.active()@,
                    after.active()@,
                    true,
                    output_name,
                    match as_number(d@.rows[0].get(field_name).unwrap()) {
                        Some(number) => Some(
                            scalar_view(number, TensorId(before.active()@.next_id)),
                        ),
                        None => None,
                    },
                    TensorKind::Normal,
                    r is Ok,
                )
            } else {
                r is Err && after.active()@ == before.active()@
            },
            None => (r matches Err(EngineError::DatasetNotFound(n)) && n@ == tuple_name)
                && after.active()@ == before.active()@,
        })
}

/// The engine before and after the creation of an empty dataset, with the result:
/// what [`TensorDb::create_dataset`] does.
pub open spec fn create_dataset_effect(
    before: &TensorDb,
    after: &TensorDb,
    name: Seq<char>,
    schema: Seq<FieldView>,
    r: Result<DatasetId, EngineError>,
) -> bool {
    &&& (before.others_kept(after))
    &&& (after.active()@ == before.active()@)
    &&& (dataset_created(&before.active(), &after.active(), name, r is Ok))
    &&& (after.active().datasets().next_id() == before.active().datasets().next_id().wrapping_add(1))
    &&& (r is Ok <==> name_position(before.active().datasets().names(), name) is None)
    &&& (r matches Ok(id) ==> id == DatasetId(before.active().datasets().next_id()) && after.active().datasets().names() == before.active().datasets().names().push(name) && after.active().datasets().named_ids() == before.active().datasets().named_ids().push(id) && (after.active().datasets().by_id(id) matches Some(made) && made@ == (DatasetView {
            id,
            schema: schema,
            rows: Seq::empty(),
            name: Some(name),
            lazy_names: Seq::empty(),
            lazy_exprs: Seq::empty(),
            index_names: Seq::empty(),
            indices: Seq::empty(),
        })) && forall|other: DatasetId|
            other != id ==> (#[trigger] after.active().datasets().by_id(other)) == before.active().datasets().by_id(other))
    &&& (r matches Err(e) ==> (e matches EngineError::DatasetError(inner) && inner
            is NameAlreadyExists) && after.active().datasets().ids() == before.active().datasets().ids()
            && after.active().datasets().items() == before.active().datasets().items() && after.active().datasets().names() == before.active().datasets().names() && after.active().datasets().named_ids() == before.active().datasets().named_ids())
}

/// The engine before and after the creation of a dataset from rows, with the result:
/// what [`TensorDb::create_dataset_from_rows`] does.
pub open spec fn create_dataset_from_rows_effect(
    before: &TensorDb,
    after: &TensorDb,
    name: Seq<char>,
    schema: Seq<FieldView>,
    rows: Seq<TupleView>,
    r: Result<DatasetId, EngineError>,
) -> bool {
    &&& (before.others_kept(after))
    &&& (after.active()@ == before.active()@)
    &&& (after.active().datasets().next_id() == before.active().datasets().next_id().wrapping_add(1))
    &&& (r is Ok <==> name_position(before.active().datasets().names(), name) is None && forall|i: int| 0 <= i < rows.len() ==> (#[trigger] rows[i]).schema == schema)
    &&& (r matches Ok(id) ==> id == DatasetId(before.active().datasets().next_id()) && after.active().datasets().names() == before.active().datasets().names().push(name) && after.active().datasets().named_ids() == before.active().datasets().named_ids().push(id) && (after.active().datasets().by_id(id) matches Some(made) && made@ == (DatasetView {
            id,
            schema: schema,
            rows: rows,
            name: Some(name),
            lazy_names: Seq::empty(),
            lazy_exprs: Seq::empty(),
            index_names: Seq::empty(),
            indices: Seq::empty(),
        })) && forall|other: DatasetId|
            other != id ==> (#[trigger] after.active().datasets().by_id(other)) == before.active().datasets().by_id(other))
    &&& (r is Err ==> after.active().datasets().ids() == before.active().datasets().ids() && after.active().datasets().items() == before.active().datasets().items() && after.active().datasets().names()
            == before.active().datasets().names() && after.active().datasets().named_ids() == before.active().datasets().named_ids())
}

/// The engine before and after the insertion of a row, with the result:
/// what [`TensorDb::insert_row`] does.
pub open spec fn insert_row_effect(
    before: &TensorDb,
    after: &TensorDb,
    dataset_name: Seq<char>,
    tuple: TupleView,
    r: Result<(), EngineError>,
) -> bool {
    &&& (before.others_kept(after))
    &&& (after.active()@ == before.active()@)
    &&& (match before.active().datasets().by_name(dataset_name) {
            Some(d) => (after.active().datasets().by_name(dataset_name) matches Some(changed)
                && dataset_replaced(
                &before.active().datasets(),
                &after.active().datasets(),
                dataset_name,
                changed,
            ) && row_appended(d@, changed@, tuple, r is Ok)),
            None => (r matches Err(EngineError::DatasetNotFound(n)) && n@ == dataset_name)
                && same_store(&before.active().datasets(), &after.active().datasets()),
        })
}

/// The engine before and after the replacing of the rows of a dataset, with the result:
/// what [`TensorDb::replace_dataset_rows`] does.
pub open spec fn replace_dataset_rows_effect(
    before: &TensorDb,
    after: &TensorDb,
    dataset_name: Seq<char>,
    rows: Seq<TupleView>,
    r: Result<(), EngineError>,
) -> bool {
    &&& (before.others_kept(after))
    &&& (after.active()@ == before.active()@)
    &&& (match before.active().datasets().by_name(dataset_name) {
            Some(d) => (after.active().datasets().by_name(dataset_name) matches Some(changed)
                && dataset_replaced(
                &before.active().datasets(),
                &after.active().datasets(),
                dataset_name,
                changed,
            ) && rows_replaced(d@, changed@, rows, r is Ok)),
            None => (r matches Err(EngineError::DatasetNotFound(n)) && n@ == dataset_name)
                && same_store(&before.active().datasets(), &after.active().datasets()),
        })
}

/// The engine before and after the addition of a column, with the result:
/// what [`TensorDb::alter_dataset_add_column`] does.
pub open spec fn alter_dataset_add_column_effect(
    before: &TensorDb,
    after: &TensorDb,
    dataset_name: Seq<char>,
    column_name: Seq<char>,
    value_type: ValueType,
    default_value: ValueView,
    nullable: bool,
    r: Result<(), EngineError>,
) -> bool {
    &&& (before.others_kept(after))
    &&& (after.active()@ == before.active()@)
    &&& (match before.active().datasets().by_name(dataset_name) {
            Some(d) => (after.active().datasets().by_name(dataset_name) matches Some(changed)
                && dataset_replaced(
                &before.active().datasets(),
                &after.active().datasets(),
                dataset_name,
                changed,
            ) && column_added(
                d@,
                changed@,
                column_name,
                value_type,
                default_value,
                nullable,
                r is Ok,
            )),
            None => (r matches Err(EngineError::DatasetNotFound(n)) && n@ == dataset_name)
                && same_store(&before.active().datasets(), &after.active().datasets()),
        })
}

/// The engine before and after the addition of a computed column, with the result:
/// what [`TensorDb::alter_dataset_add_computed_column`] does.
pub open spec fn alter_dataset_add_computed_column_effect(
    before: &TensorDb,
    after: &TensorDb,
    dataset_name: Seq<char>,
    column_name: Seq<char>,
    value_type: ValueType,
    computed_values: Seq<ValueView>,
    expression: ExprView,
    lazy: bool,
    r: Result<(), EngineError>,
) -> bool {
    &&& (before.others_kept(after))
    &&& (after.active()@ == before.active()@)
    &&& (match before.active().datasets().by_name(dataset_name) {
            Some(d) => (after.active().datasets().by_name(dataset_name) matches Some(changed)
                && dataset_replaced(
                &before.active().datasets(),
                &after.active().datasets(),
                dataset_name,
                changed,
            ) && computed_column_added(
                d@,
                changed@,
                column_name,
                value_type,
                computed_values,
                expression,
                lazy,
                r is Ok,
            )),
            None => (r matches Err(EngineError::DatasetNotFound(n)) && n@ == dataset_name)
                && same_store(&before.active().datasets(), &after.active().datasets()),
        })
}

/// The engine before and after the materializing of lazy columns, with the result:
/// what [`TensorDb::materialize_lazy_columns`] does.
pub open spec fn materialize_lazy_columns_effect(
    before: &TensorDb,
    after: &TensorDb,
    dataset_name: Seq<char>,
    r: Result<(), EngineError>,
) -> bool {
    &&& (before.others_kept(after))
    &&& (after.active()@ == before.active()@)
    &&& (match before.active().datasets().by_name(dataset_name) {
            Some(d) => (after.active().datasets().by_name(dataset_name) matches Some(changed)
                && dataset_replaced(
                &before.active().datasets(),
                &after.active().datasets(),
                dataset_name,
                changed,
            ) && materialized(d@, changed@, r is Ok)),
            None => (r matches Err(EngineError::DatasetNotFound(n)) && n@ == dataset_name)
                && same_store(&before.active().datasets(), &after.active().datasets()),
        })
}

/// The engine before and after the creation of a hash index, with the result:
/// what [`TensorDb::create_index`] does.
pub open spec fn create_index_effect(
    before: &TensorDb,
    after: &TensorDb,
    dataset_name: Seq<char>,
    column_name: Seq<char>,
    r: Result<(), EngineError>,
) -> bool {
    &&& (before.others_kept(after))
    &&& (after.active()@ == before.active()@)
    &&& (match before.active().datasets().by_name(dataset_name) {
            Some(d) => (after.active().datasets().by_name(dataset_name) matches Some(changed)
                && dataset_replaced(
                &before.active().datasets(),
                &after.active().datasets(),
                dataset_name,
                changed,
            ) && exists|like: Index|
                like is Hash && #[trigger] index_created(
                    d@,
                    changed@,
                    column_name,
                    like,
                    r is Ok,
                )),
            None => (r matches Err(EngineError::DatasetNotFound(n)) && n@ == dataset_name)
                && same_store(&before.active().datasets(), &after.active().datasets()),
        })
}

/// The engine before and after the creation of a vector index, with the result:
/// what [`TensorDb::create_vector_index`] does.
pub open spec fn create_vector_index_effect(
    before: &TensorDb,
    after: &TensorDb,
    dataset_name: Seq<char>,
    column_name: Seq<char>,
    r: Result<(), EngineError>,
) -> bool {
    &&& (before.others_kept(after))
    &&& (after.active()@ == before.active()@)
    &&& (match before.active().datasets().by_name(dataset_name) {
            Some(d) => (after.active().datasets().by_name(dataset_name) matches Some(changed)
                && dataset_replaced(
                &before.active().datasets(),
                &after.active().datasets(),
                dataset_name,
                changed,
            ) && exists|like: Index|
                like is Vector && #[trigger] index_created(
                    d@,
                    changed@,
                    column_name,
                    like,
                    r is Ok,
                )),
            None => (r matches Err(EngineError::DatasetNotFound(n)) && n@ == dataset_name)
                && same_store(&before.active().datasets(), &after.active().datasets()),
        })
}

/// The engine before and after the creation of a database, with the result:
/// what [`TensorDb::create_database`] does.
pub open spec fn create_database_effect(
    before: &TensorDb,
    after: &TensorDb,
    name: Seq<char>,
    r: Result<(), EngineError>,
) -> bool {
    &&& (after.wf())
    &&& (after.active_name() == before.active_name())
    &&& (r is Ok <==> name_position(before.names(), name) is None)
    &&& (r is Ok ==> after.names() == before.names().push(name) && after.instances().len() == before.instances().len() + 1 && after.instances().drop_last() == before.instances() && after.instances().last()@
            == (DatabaseView {
            name: name,
            next_id: 0,
            tensors: Seq::empty(),
            tensor_names: Seq::empty(),
            entries: Seq::empty(),
        }) && after.instances().last().datasets().names().len() == 0)
    &&& (r matches Err(e) ==> e is InvalidOp && after.names() == before.names()
            && after.instances() == before.instances())
}

/// The engine before and after the choice of the active database, with the result:
/// what [`TensorDb::use_database`] does.
pub open spec fn use_database_effect(
    before: &TensorDb,
    after: &TensorDb,
    name: Seq<char>,
    r: Result<(), EngineError>,
) -> bool {
    &&& (after.wf())
    &&& (after.names() == before.names())
    &&& (after.instances() == before.instances())
    &&& (r is Ok <==> name_position(before.names(), name) is Some)
    &&& (r is Ok ==> after.active_name() == name)
    &&& (r matches Err(e) ==> e is InvalidOp && after.active_name() == before.active_name())
}

/// The engine before and after the dropping of a database, with the result:
/// what [`TensorDb::drop_database`] does.
pub open spec fn drop_database_effect(
    before: &TensorDb,
    after: &TensorDb,
    name: Seq<char>,
    r: Result<(), EngineError>,
) -> bool {
    &&& (after.wf())
    &&& (r is Ok <==> name != "default"@ && name_position(before.names(), name) is Some)
    &&& (r is Ok ==> after.names() == before.names().remove(
            name_position(before.names(), name).unwrap(),
        ) && after.instances() == before.instances().remove(
            name_position(before.names(), name).unwrap(),
        ) && after.active_name() == if before.active_name() == name {
            "default"@
        } else {
            before.active_name()
        })
    &&& (r matches Err(e) ==> e is InvalidOp && after.names() == before.names()
            && after.instances() == before.instances() && after.active_name()
            == before.active_name())
}

/// The engine before and after the setting of an entry of metadata, with the result:
/// what [`TensorDb::set_dataset_metadata`] does.
pub open spec fn set_dataset_metadata_effect(
    before: &TensorDb,
    after: &TensorDb,
    name: Seq<char>,
    key: Seq<char>,
    value: Seq<char>,
    r: Result<(), EngineError>,
) -> bool {
    &&& (before.others_kept(after))
    &&& (after.active()@ == before.active()@)
    &&& (match before.active().datasets().by_name(name) {
            Some(d) => r is Ok && (after.active().datasets().by_name(name) matches Some(changed)
                && dataset_replaced(
                &before.active().datasets(),
                &after.active().datasets(),
                name,
                changed,
            ) && changed@ == d@ && crate::dataset::entry_set(&d.extras(), &changed.extras(), key, value)),
            None => (r matches Err(EngineError::NameNotFound(n)) && n@ == name)
                && same_store(&before.active().datasets(), &after.active().datasets()),
        })
}

} // verus!

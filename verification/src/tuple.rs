//! Fields, schemas and rows.

use crate::order::same_text;
use crate::tensor::another_handle;
use crate::value::{views_of, Value, ValueType, ValueView};
use std::sync::Arc;
use vstd::prelude::*;
use vstd::string::StringExecFns;

verus! {

/// A named, typed column of a schema.
#[derive(Debug)]
pub struct Field {
    pub name: String,
    pub value_type: ValueType,
    /// Whether the column may hold `Null`.
    pub nullable: bool,
    /// Whether the column is computed from an expression when it is read;
    /// its stored values are then `Null` placeholders.
    pub is_lazy: bool,
}

/// Mathematical model of a [`Field`].
pub struct FieldView {
    pub name: Seq<char>,
    pub value_type: ValueType,
    pub nullable: bool,
    pub is_lazy: bool,
}

impl View for Field {
    type V = FieldView;

    open spec fn view(&self) -> FieldView {
        FieldView {
            name: self.name@,
            value_type: self.value_type,
            nullable: self.nullable,
            is_lazy: self.is_lazy,
        }
    }
}

impl FieldView {
    /// Whether a value may stand in this column: `Null` where the column
    /// is nullable, any other value where its type descriptor is the
    /// column's.
    pub open spec fn accepts(self, value: ValueView) -> bool {
        if value is Null {
            self.nullable
        } else {
            self.value_type == value.value_type()
        }
    }
}

impl Clone for Field {
    fn clone(&self) -> (r: Self)
        ensures
            r@ == self@,
    {
        Field {
            name: self.name.clone(),
            value_type: self.value_type,
            nullable: self.nullable,
            is_lazy: self.is_lazy,
        }
    }
}

impl Field {
    /// A column that is neither nullable nor lazy.
    pub fn new(name: &str, value_type: ValueType) -> (r: Self)
        ensures
            r@ == (FieldView { name: name@, value_type, nullable: false, is_lazy: false }),
    {
        Field { name: name.to_owned(), value_type, nullable: false, is_lazy: false }
    }

    /// The same column, nullable.
    pub fn nullable(self) -> (r: Self)
        ensures
            r@ == (FieldView { nullable: true, ..self@ }),
    {
        Field { name: self.name, value_type: self.value_type, nullable: true, is_lazy: self.is_lazy }
    }

    /// Whether a value may stand in this column.
    pub fn is_compatible(&self, value: &Value) -> (r: bool)
        ensures
            r == self@.accepts(value@),
    {
        if value.is_null() {
            return self.nullable;
        }
        let actual = value.value_type();
        match (self.value_type, actual) {
            (ValueType::Float, ValueType::Float) => true,
            (ValueType::Int, ValueType::Int) => true,
            (ValueType::String, ValueType::String) => true,
            (ValueType::Bool, ValueType::Bool) => true,
            (ValueType::Vector(expected), ValueType::Vector(found)) => expected == found,
            (ValueType::Matrix(er, ec), ValueType::Matrix(ar, ac)) => er == ar && ec == ac,
            _ => false,
        }
    }

    /// Whether two columns are the same in every respect.
    pub fn same_as(&self, other: &Field) -> (r: bool)
        ensures
            r == (self@ == other@),
    {
        same_text(self.name.as_str(), other.name.as_str()) && self.value_type == other.value_type
            && self.nullable == other.nullable && self.is_lazy == other.is_lazy
    }
}

/// An ordered list of columns.
#[derive(Debug)]
pub struct Schema {
    pub fields: Vec<Field>,
}

/// Mathematical model of a [`Schema`]: the models of its columns, in order.
pub type SchemaView = Seq<FieldView>;

impl View for Schema {
    type V = Seq<FieldView>;

    open spec fn view(&self) -> Seq<FieldView> {
        self.fields@.map_values(|f: Field| f@)
    }
}

/// The position of the column with the given name: the last one, should
/// several columns bear it.
pub open spec fn position_of(fields: Seq<FieldView>, name: Seq<char>) -> Option<int>
    decreases fields.len(),
{
    if fields.len() == 0 {
        None
    } else if fields.last().name == name {
        Some(fields.len() - 1)
    } else {
        position_of(fields.drop_last(), name)
    }
}

/// A position found by name is a position of the schema, holds that name,
/// and no later column holds it.
pub proof fn lemma_position_of(fields: Seq<FieldView>, name: Seq<char>)
    ensures
        match position_of(fields, name) {
            Some(i) => 0 <= i < fields.len() && fields[i].name == name && forall|j: int|
                i < j < fields.len() ==> fields[j].name != name,
            None => forall|j: int| 0 <= j < fields.len() ==> fields[j].name != name,
        },
    decreases fields.len(),
{
    if fields.len() > 0 && fields.last().name != name {
        let front = fields.drop_last();
        lemma_position_of(front, name);
        assert forall|j: int| 0 <= j < front.len() implies front[j] == fields[j] by {}
        match position_of(front, name) {
            Some(i) => {
                assert(fields[i] == front[i]);
                assert forall|j: int| i < j < fields.len() implies fields[j].name != name by {
                    if j < front.len() {
                        assert(front[j] == fields[j]);
                    }
                }
            },
            None => {
                assert forall|j: int| 0 <= j < fields.len() implies fields[j].name != name by {
                    if j < front.len() {
                        assert(front[j] == fields[j]);
                    }
                }
            },
        }
    }
}

/// Whether no two columns bear one name.
pub open spec fn has_unique_names(fields: Seq<FieldView>) -> bool {
    forall|i: int, j: int|
        0 <= i < j < fields.len() ==> (#[trigger] fields[i]).name != (#[trigger] fields[j]).name
}

/// The first place from `from` on at which a column does not accept its
/// value, or the number of columns when every value is accepted.
pub open spec fn first_refused(fields: Seq<FieldView>, values: Seq<ValueView>, from: int) -> int
    decreases fields.len() - from,
{
    if 0 <= from < fields.len() && fields[from].accepts(values[from]) {
        first_refused(fields, values, from + 1)
    } else {
        from
    }
}

/// What is said of a list of values that does not fit a schema: the two
/// counts, where the number of values is not the number of columns; else
/// the first column that does not accept its value, by name and place,
/// with the type expected and the type found.
pub open spec fn refusal_text(fields: Seq<FieldView>, values: Seq<ValueView>) -> Seq<char> {
    if values.len() != fields.len() {
        "Value count mismatch: expected "@ + crate::text::decimal(fields.len()) + ", got "@
            + crate::text::decimal(values.len())
    } else {
        let place = first_refused(fields, values, 0);
        "Type mismatch at field '"@ + fields[place].name + "' (index "@ + crate::text::decimal(
            place as nat,
        ) + "): expected "@ + crate::text::type_spec(fields[place].value_type) + ", got "@
            + crate::text::type_spec(values[place].value_type())
    }
}

/// Whether a list of values fits a schema: one value per column, each
/// accepted by its column.
pub open spec fn schema_accepts(fields: Seq<FieldView>, values: Seq<ValueView>) -> bool {
    values.len() == fields.len() && forall|i: int|
        0 <= i < fields.len() ==> (#[trigger] fields[i]).accepts(values[i])
}

impl Clone for Schema {
    fn clone(&self) -> (r: Self)
        ensures
            r@ == self@,
    {
        let mut fields: Vec<Field> = Vec::with_capacity(self.fields.len());
        let mut i: usize = 0;
        while i < self.fields.len()
            invariant
                i <= self.fields@.len(),
                fields@.len() == i,
                forall|j: int| 0 <= j < i ==> fields@[j]@ == self.fields@[j]@,
            decreases self.fields@.len() - i,
        {
            fields.push(self.fields[i].clone());
            i += 1;
        }
        let copy = Schema { fields };
        assert(copy@ =~= self@);
        copy
    }
}

impl Schema {
    /// A schema of the given columns.
    pub fn new(fields: Vec<Field>) -> (r: Self)
        ensures
            r.fields == fields,
    {
        Schema { fields }
    }

    /// The position of the column with the given name.
    pub fn get_field_index(&self, name: &str) -> (r: Option<usize>)
        ensures
            match position_of(self@, name@) {
                Some(i) => r == Some(i as usize),
                None => r is None,
            },
            r matches Some(i) ==> i < self.fields@.len() && self.fields@[i as int].name@ == name@
                && position_of(self@, name@) == Some(i as int),
    {
        let mut i: usize = self.fields.len();
        proof {
            assert(self@.take(self@.len() as int) =~= self@);
        }
        while i > 0
            invariant
                i <= self.fields@.len(),
                position_of(self@, name@) == position_of(self@.take(i as int), name@),
            decreases i,
        {
            let ghost prefix = self@.take(i as int);
            proof {
                assert(prefix.drop_last() =~= self@.take(i - 1));
                assert(prefix.last() == self.fields@[i - 1]@);
            }
            if same_text(self.fields[i - 1].name.as_str(), name) {
                proof {
                    lemma_position_of(self@, name@);
                }
                return Some(i - 1);
            }
            i -= 1;
        }
        None
    }

    /// The column with the given name.
    pub fn get_field(&self, name: &str) -> (r: Option<&Field>)
        ensures
            match position_of(self@, name@) {
                Some(i) => r matches Some(f) && *f == self.fields@[i],
                None => r is None,
            },
    {
        proof {
            lemma_position_of(self@, name@);
        }
        match self.get_field_index(name) {
            Some(i) => Some(&self.fields[i]),
            None => None,
        }
    }

    /// Number of columns.
    pub fn len(&self) -> (r: usize)
        ensures
            r == self@.len(),
    {
        self.fields.len()
    }

    /// Whether there are no columns.
    pub fn is_empty(&self) -> (r: bool)
        ensures
            r == (self@.len() == 0),
    {
        self.fields.len() == 0
    }

    /// Whether two schemas have the same columns in the same order.
    pub fn same_as(&self, other: &Schema) -> (r: bool)
        ensures
            r == (self@ == other@),
    {
        if self.fields.len() != other.fields.len() {
            assert(self@.len() != other@.len());
            return false;
        }
        let mut i: usize = 0;
        while i < self.fields.len()
            invariant
                self.fields@.len() == other.fields@.len(),
                i <= self.fields@.len(),
                forall|j: int| 0 <= j < i ==> self@[j] == other@[j],
            decreases self.fields@.len() - i,
        {
            if !self.fields[i].same_as(&other.fields[i]) {
                assert(self@[i as int] != other@[i as int]);
                return false;
            }
            i += 1;
        }
        assert(self@ =~= other@);
        true
    }

    /// Checks that a list of values fits this schema: one value per column,
    /// each accepted by its column. The error says what does not fit: see
    /// [`refusal_text`].
    pub fn validate(&self, values: &[Value]) -> (r: Result<(), String>)
        ensures
            r is Ok <==> schema_accepts(self@, views_of(values@)),
            r matches Err(text) ==> text@ == refusal_text(self@, views_of(values@)),
    {
        if values.len() != self.fields.len() {
            let mut text = "Value count mismatch: expected ".to_owned();
            text.append(crate::text::decimal_text(self.fields.len()).as_str());
            text.append(", got ");
            text.append(crate::text::decimal_text(values.len()).as_str());
            return Err(text);
        }
        let mut i: usize = 0;
        while i < self.fields.len()
            invariant
                values@.len() == self.fields@.len(),
                i <= self.fields@.len(),
                forall|j: int| 0 <= j < i ==> (#[trigger] self@[j]).accepts(views_of(values@)[j]),
                first_refused(self@, views_of(values@), 0) == first_refused(
                    self@,
                    views_of(values@),
                    i as int,
                ),
            decreases self.fields@.len() - i,
        {
            if !self.fields[i].is_compatible(&values[i]) {
                assert(!self@[i as int].accepts(views_of(values@)[i as int]));
                assert(self@[i as int] == self.fields@[i as int]@);
                assert(views_of(values@)[i as int] == values@[i as int]@);
                let mut text = "Type mismatch at field '".to_owned();
                text.append(self.fields[i].name.as_str());
                text.append("' (index ");
                text.append(crate::text::decimal_text(i).as_str());
                text.append("): expected ");
                text.append(crate::text::type_text(&self.fields[i].value_type).as_str());
                text.append(", got ");
                text.append(crate::text::type_text(&values[i].value_type()).as_str());
                return Err(text);
            }
            i += 1;
        }
        Ok(())
    }
}

/// A row: values bound to a schema that accepts them.
#[derive(Debug)]
pub struct Tuple {
    schema: Arc<Schema>,
    values: Vec<Value>,
}

/// Mathematical model of a [`Tuple`].
pub struct TupleView {
    pub schema: Seq<FieldView>,
    pub values: Seq<ValueView>,
}

impl TupleView {
    /// The schema accepts the values.
    pub open spec fn wf(self) -> bool {
        schema_accepts(self.schema, self.values)
    }

    /// The value in the column of the given name, if the schema has one.
    pub open spec fn get(self, name: Seq<char>) -> Option<ValueView> {
        match position_of(self.schema, name) {
            Some(i) => if i < self.values.len() {
                Some(self.values[i])
            } else {
                None
            },
            None => None,
        }
    }
}

impl View for Tuple {
    type V = TupleView;

    closed spec fn view(&self) -> TupleView {
        TupleView { schema: self.schema@, values: views_of(self.values@) }
    }
}

impl Clone for Tuple {
    fn clone(&self) -> (r: Self)
        ensures
            r@ == self@,
    {
        proof {
            use_type_invariant(self);
        }
        let values = copy_values(&self.values);
        Tuple { schema: another_handle(&self.schema), values }
    }
}

/// A copy of a list of values.
pub fn copy_values(source: &Vec<Value>) -> (r: Vec<Value>)
    ensures
        views_of(r@) == views_of(source@),
{
    let mut out: Vec<Value> = Vec::with_capacity(source.len());
    let mut i: usize = 0;
    while i < source.len()
        invariant
            i <= source@.len(),
            out@.len() == i,
            forall|j: int| 0 <= j < i ==> out@[j]@ == source@[j]@,
        decreases source@.len() - i,
    {
        out.push(source[i].clone());
        i += 1;
    }
    assert(views_of(out@) =~= views_of(source@));
    out
}

impl Tuple {
    #[verifier::type_invariant]
    spec fn inv(&self) -> bool {
        schema_accepts(self.schema@, views_of(self.values@))
    }

    /// A row of the given values under the given schema. Fails unless the
    /// schema accepts the values.
    pub fn new(schema: Arc<Schema>, values: Vec<Value>) -> (r: Result<Self, String>)
        ensures
            r is Ok <==> schema_accepts(schema@, views_of(values@)),
            r matches Ok(t) ==> t@ == (TupleView { schema: schema@, values: views_of(values@) }),
            r matches Err(text) ==> text@ == refusal_text(schema@, views_of(values@)),
    {
        match schema.validate(values.as_slice()) {
            Ok(()) => Ok(Tuple { schema, values }),
            Err(e) => Err(e),
        }
    }

    /// The schema handle.
    pub fn schema(&self) -> (r: &Arc<Schema>)
        ensures
            r@ == self@.schema,
            self@.wf(),
    {
        proof {
            use_type_invariant(self);
        }
        &self.schema
    }

    /// The values, one per column.
    pub fn values(&self) -> (r: &Vec<Value>)
        ensures
            views_of(r@) == self@.values,
            r@.len() == self@.schema.len(),
            self@.wf(),
    {
        proof {
            use_type_invariant(self);
        }
        &self.values
    }

    /// The value in the column of the given name.
    pub fn get(&self, field_name: &str) -> (r: Option<&Value>)
        ensures
            match self@.get(field_name@) {
                Some(v) => r matches Some(found) && found@ == v,
                None => r is None,
            },
    {
        proof {
            use_type_invariant(self);
            lemma_position_of(self.schema@, field_name@);
        }
        match self.schema.get_field_index(field_name) {
            Some(i) => Some(&self.values[i]),
            None => None,
        }
    }

    /// The value at the given position.
    pub fn get_by_index(&self, index: usize) -> (r: Option<&Value>)
        ensures
            index < self@.values.len() ==> (r matches Some(found) && found@
                == self@.values[index as int]),
            index >= self@.values.len() ==> r is None,
    {
        if index < self.values.len() {
            Some(&self.values[index])
        } else {
            None
        }
    }

    /// Replaces the value in the column of the given name. Fails, leaving
    /// the row as it was, when the schema has no such column or the column
    /// does not accept the value.
    pub fn set(&mut self, field_name: &str, value: Value) -> (r: Result<(), String>)
        ensures
            match position_of(old(self)@.schema, field_name@) {
                Some(i) => if old(self)@.schema[i].accepts(value@) {
                    r is Ok && final(self)@ == (TupleView {
                        values: old(self)@.values.update(i, value@),
                        ..old(self)@
                    })
                } else {
                    r is Err && final(self)@ == old(self)@
                },
                None => r is Err && final(self)@ == old(self)@,
            },
    {
        proof {
            use_type_invariant(&*self);
            lemma_position_of(self.schema@, field_name@);
        }
        let index = match self.schema.get_field_index(field_name) {
            Some(index) => index,
            None => {
                let mut text = "Field '".to_owned();
                text.append(field_name);
                text.append("' not found");
                return Err(text);
            },
        };
        if !self.schema.fields[index].is_compatible(&value) {
            let mut text = "Type mismatch for field '".to_owned();
            text.append(field_name);
            text.append("': expected ");
            text.append(crate::text::type_text(&self.schema.fields[index].value_type).as_str());
            text.append(", got ");
            text.append(crate::text::type_text(&value.value_type()).as_str());
            return Err(text);
        }
        let ghost before = views_of(self.values@);
        let mut taken = Tuple { schema: Arc::new(Schema::new(Vec::new())), values: Vec::new() };
        core::mem::swap(self, &mut taken);
        let Tuple { schema, values: mut values } = taken;
        values.set(index, value);
        proof {
            assert(views_of(values@) =~= before.update(index as int, value@));
            assert forall|j: int| 0 <= j < schema@.len() implies (#[trigger] schema@[j]).accepts(
                views_of(values@)[j],
            ) by {
                if j != index {
                    assert(views_of(values@)[j] == before[j]);
                }
            }
        }
        *self = Tuple { schema, values };
        Ok(())
    }

    /// Number of values.
    pub fn len(&self) -> (r: usize)
        ensures
            r == self@.values.len(),
    {
        self.values.len()
    }

    /// Whether there are no values.
    pub fn is_empty(&self) -> (r: bool)
        ensures
            r == (self@.values.len() == 0),
    {
        self.values.len() == 0
    }
}

} // verus!

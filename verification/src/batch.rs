//! Record batches: what the codec knows of one, and how it builds and reads one.
use std::sync::Arc;

use arrow_array::types::{ArrowPrimitiveType, Float64Type};
use arrow_array::{Array, ArrayRef, Float64Array, UInt32Array, UInt64Array};
use arrow_schema::{DataType, Field, Schema};
use vstd::prelude::*;

verus! {

/// An Arrow record batch. Its contents are known to contracts as [`batch_model`]; the
/// field is public so that payload types can be mapped to and from Arrow arrays.
#[verifier::external_body]
pub struct RecordBatch(pub arrow_array::RecordBatch);

/// The type of a column, as far as the codec tells types apart.
#[derive(Clone, Copy, Debug, PartialEq, Eq, Structural)]
pub enum ColumnType {
    /// `DataType::UInt64`.
    UInt64,
    /// `DataType::UInt32`.
    UInt32,
    /// `DataType::Float64`.
    Float64,
    /// Any other type.
    Other,
}

/// The values of a column in contracts, with the slots of null values included. A
/// floating-point value is its IEEE 754 bit pattern.
pub ghost enum Values {
    UInt64(Seq<u64>),
    UInt32(Seq<u32>),
    Float64(Seq<u64>),
    /// An array of another array type.
    Other,
}

/// A column in contracts.
pub ghost struct ColumnModel {
    pub name: Seq<char>,
    pub data_type: ColumnType,
    /// The data type as `Display` writes it.
    pub type_text: Seq<char>,
    pub nullable: bool,
    pub null_count: nat,
    pub values: Values,
    /// The field's metadata: keys with their values, in the order of the keys.
    pub metadata: Seq<(Seq<char>, Seq<char>)>,
    /// Whatever else the column has: which values are null, and the values of another array
    /// type. Empty where there is nothing of the kind.
    pub extra: Seq<u8>,
}

/// A record batch in contracts.
#[verifier::ext_equal]
pub ghost struct BatchModel {
    pub columns: Seq<ColumnModel>,
    pub rows: nat,
    /// The schema's metadata: keys with their values, in the order of the keys.
    pub metadata: Seq<(Seq<char>, Seq<char>)>,
}

/// The contents of a record batch.
pub uninterp spec fn batch_model(batch: RecordBatch) -> BatchModel;

/// The values of a column to build.
#[derive(Clone, Debug, PartialEq, Eq)]
pub enum ColumnData {
    /// A `UInt64Array`.
    UInt64(Vec<u64>),
    /// A `UInt32Array`.
    UInt32(Vec<u32>),
    /// A `Float64Array`, of values with these bit patterns.
    Float64(Vec<u64>),
}

/// A column to build.
#[derive(Clone, Debug, PartialEq, Eq)]
pub struct Column {
    /// The name of the field.
    pub name: String,
    /// Whether the field is nullable.
    pub nullable: bool,
    /// The values, none of them null.
    pub data: ColumnData,
}

impl ColumnData {
    /// The number of values.
    pub open spec fn spec_len(self) -> nat {
        match self {
            ColumnData::UInt64(values) => values@.len(),
            ColumnData::UInt32(values) => values@.len(),
            ColumnData::Float64(values) => values@.len(),
        }
    }
}

impl View for Column {
    type V = ColumnModel;

    open spec fn view(&self) -> ColumnModel {
        ColumnModel {
            name: self.name@,
            data_type: match self.data {
                ColumnData::UInt64(_) => ColumnType::UInt64,
                ColumnData::UInt32(_) => ColumnType::UInt32,
                ColumnData::Float64(_) => ColumnType::Float64,
            },
            type_text: match self.data {
                ColumnData::UInt64(_) => "UInt64"@,
                ColumnData::UInt32(_) => "UInt32"@,
                ColumnData::Float64(_) => "Float64"@,
            },
            nullable: self.nullable,
            null_count: 0,
            values: match self.data {
                ColumnData::UInt64(values) => Values::UInt64(values@),
                ColumnData::UInt32(values) => Values::UInt32(values@),
                ColumnData::Float64(values) => Values::Float64(values@),
            },
            metadata: Seq::empty(),
            extra: Seq::empty(),
        }
    }
}

/// Whether there are columns and all have the same number of values.
pub open spec fn columns_fit(columns: Seq<Column>) -> bool {
    &&& columns.len() > 0
    &&& forall|i: int| 0 <= i < columns.len() ==> #[trigger] columns[i].data.spec_len()
        == columns[0].data.spec_len()
}

/// The batch of the given columns.
pub open spec fn columns_model(columns: Seq<Column>) -> BatchModel {
    BatchModel {
        columns: columns.map_values(|column: Column| column@),
        rows: columns[0].data.spec_len(),
        metadata: Seq::empty(),
    }
}

/// Builds a batch with `arrow_array::RecordBatch::try_new` from the columns' arrays and a
/// `Schema` of one `Field::new` per column, with the array's data type. It succeeds exactly
/// for one or more columns of equal length; otherwise the `ArrowError` is an
/// `InvalidArgumentError` with one of two texts.
#[verifier::external_body]
pub(crate) fn new_batch(columns: Vec<Column>) -> (batch: Result<RecordBatch, String>)
    ensures
        match batch {
            Ok(built) => columns_fit(columns@) && batch_model(built) == columns_model(columns@),
            Err(detail) => !columns_fit(columns@) && detail@ == if columns@.len() == 0 {
                "Invalid argument error: must either specify a row count or at least one column"@
            } else {
                "Invalid argument error: all columns in a record batch must have the same length"@
            },
        },
{
    let (fields, arrays): (Vec<Field>, Vec<ArrayRef>) = columns.into_iter().map(|c| {
        let array: ArrayRef = match c.data {
            ColumnData::UInt64(v) => Arc::new(UInt64Array::from(v)),
            ColumnData::UInt32(v) => Arc::new(UInt32Array::from(v)),
            ColumnData::Float64(v) => Arc::new(Float64Array::from_iter_values(
                v.into_iter().map(<<Float64Type as ArrowPrimitiveType>::Native>::from_bits))),
        };
        (Field::new(c.name, array.data_type().clone(), c.nullable), array)
    }).unzip();
    let schema = Arc::new(Schema::new(fields));
    arrow_array::RecordBatch::try_new(schema, arrays).map(RecordBatch).map_err(|e| e.to_string())
}

/// `Schema::index_of` on the batch's schema: the first field with the given name.
#[verifier::external_body]
pub(crate) fn column_index(batch: &RecordBatch, name: &str) -> (index: Option<usize>)
    ensures
        match index {
            Some(i) => {
                &&& i < batch_model(*batch).columns.len()
                &&& batch_model(*batch).columns[i as int].name == name@
                &&& forall|j: int| 0 <= j < i ==> batch_model(*batch).columns[j].name != name@
            },
            None => forall|j: int|
                0 <= j < batch_model(*batch).columns.len() ==> batch_model(*batch).columns[j].name
                    != name@,
        },
{
    batch.0.schema().index_of(name).ok()
}

/// `RecordBatch::num_columns`.
#[verifier::external_body]
pub(crate) fn column_count(batch: &RecordBatch) -> (count: usize)
    ensures
        count == batch_model(*batch).columns.len(),
{
    batch.0.num_columns()
}

/// The number of entries in `Schema::metadata` of the batch's schema.
#[verifier::external_body]
pub(crate) fn schema_metadata_len(batch: &RecordBatch) -> (len: usize)
    ensures
        len == batch_model(*batch).metadata.len(),
{
    batch.0.schema().metadata().len()
}

/// `Field::name` of a column.
#[verifier::external_body]
pub(crate) fn column_label(batch: &RecordBatch, index: usize) -> (name: String)
    requires
        index < batch_model(*batch).columns.len(),
    ensures
        name@ == batch_model(*batch).columns[index as int].name,
{
    batch.0.schema().field(index).name().clone()
}

/// The number of entries in `Field::metadata` of a column.
#[verifier::external_body]
pub(crate) fn column_metadata_len(batch: &RecordBatch, index: usize) -> (len: usize)
    requires
        index < batch_model(*batch).columns.len(),
    ensures
        len == batch_model(*batch).columns[index as int].metadata.len(),
{
    batch.0.schema().field(index).metadata().len()
}

/// `Field::data_type` of a column, told apart as far as [`ColumnType`] goes.
#[verifier::external_body]
pub(crate) fn column_type(batch: &RecordBatch, index: usize) -> (data_type: ColumnType)
    requires
        index < batch_model(*batch).columns.len(),
    ensures
        data_type == batch_model(*batch).columns[index as int].data_type,
{
    match batch.0.schema().field(index).data_type() {
        DataType::UInt64 => ColumnType::UInt64,
        DataType::UInt32 => ColumnType::UInt32,
        DataType::Float64 => ColumnType::Float64,
        _ => ColumnType::Other,
    }
}

/// `Field::data_type` of a column, as its `Display` writes it.
#[verifier::external_body]
pub(crate) fn column_type_text(batch: &RecordBatch, index: usize) -> (text: String)
    requires
        index < batch_model(*batch).columns.len(),
    ensures
        text@ == batch_model(*batch).columns[index as int].type_text,
{
    batch.0.schema().field(index).data_type().to_string()
}

/// `Field::is_nullable` of a column.
#[verifier::external_body]
pub(crate) fn column_nullable(batch: &RecordBatch, index: usize) -> (nullable: bool)
    requires
        index < batch_model(*batch).columns.len(),
    ensures
        nullable == batch_model(*batch).columns[index as int].nullable,
{
    batch.0.schema().field(index).is_nullable()
}

/// `Array::null_count` of a column.
#[verifier::external_body]
pub(crate) fn column_null_count(batch: &RecordBatch, index: usize) -> (count: usize)
    requires
        index < batch_model(*batch).columns.len(),
    ensures
        count == batch_model(*batch).columns[index as int].null_count,
{
    batch.0.column(index).null_count()
}

/// The values of a column whose array is a `UInt64Array`, which `downcast_ref` finds out:
/// one for each row of the batch.
#[verifier::external_body]
pub(crate) fn column_u64(batch: &RecordBatch, index: usize) -> (values: Option<Vec<u64>>)
    requires
        index < batch_model(*batch).columns.len(),
    ensures
        match values {
            Some(found) => {
                &&& batch_model(*batch).columns[index as int].values == Values::UInt64(found@)
                &&& found@.len() == batch_model(*batch).rows
            },
            None => !(batch_model(*batch).columns[index as int].values is UInt64),
        },
{
    batch.0.column(index).as_any().downcast_ref::<UInt64Array>().map(|a| a.values().to_vec())
}

/// The values of a column whose array is a `UInt32Array`, which `downcast_ref` finds out:
/// one for each row of the batch.
#[verifier::external_body]
pub(crate) fn column_u32(batch: &RecordBatch, index: usize) -> (values: Option<Vec<u32>>)
    requires
        index < batch_model(*batch).columns.len(),
    ensures
        match values {
            Some(found) => {
                &&& batch_model(*batch).columns[index as int].values == Values::UInt32(found@)
                &&& found@.len() == batch_model(*batch).rows
            },
            None => !(batch_model(*batch).columns[index as int].values is UInt32),
        },
{
    batch.0.column(index).as_any().downcast_ref::<UInt32Array>().map(|a| a.values().to_vec())
}

/// The bit patterns of the values of a column whose array is a `Float64Array`, which
/// `downcast_ref` finds out: one for each row of the batch.
#[verifier::external_body]
pub(crate) fn column_float64(batch: &RecordBatch, index: usize) -> (values: Option<Vec<u64>>)
    requires
        index < batch_model(*batch).columns.len(),
    ensures
        match values {
            Some(found) => {
                &&& batch_model(*batch).columns[index as int].values == Values::Float64(found@)
                &&& found@.len() == batch_model(*batch).rows
            },
            None => !(batch_model(*batch).columns[index as int].values is Float64),
        },
{
    batch.0.column(index).as_any().downcast_ref::<Float64Array>().map(
        |a| a.values().iter().map(|v| v.to_bits()).collect())
}

/// The most columns that a plain schema has.
pub const PLAIN_COLUMN_LIMIT: usize = 1_000;

/// The most characters that a column's name has in a plain schema.
pub const PLAIN_NAME_LIMIT: usize = 100_000;

/// Whether a column has one of the three column types, a name that is not overly long, and no
/// field metadata.
pub open spec fn plain_field(column: ColumnModel) -> bool {
    &&& !(column.data_type is Other)
    &&& column.name.len() <= PLAIN_NAME_LIMIT
    &&& column.metadata.len() == 0
}

/// Whether a batch has a schema of which it is known that it can be written: not too many
/// columns, all with plain fields, and no schema metadata. Its message takes less than half of
/// the two gigabytes that a flatbuffer can have.
pub open spec fn plain_schema(batch: BatchModel) -> bool {
    &&& batch.columns.len() <= PLAIN_COLUMN_LIMIT
    &&& batch.metadata.len() == 0
    &&& forall|i: int| 0 <= i < batch.columns.len() ==> plain_field(#[trigger] batch.columns[i])
}

/// Checks whether a batch has a plain schema.
pub fn check_schema(batch: &RecordBatch) -> (plain: bool)
    ensures
        plain == plain_schema(batch_model(*batch)),
{
    let count: usize = column_count(batch);
    if count > PLAIN_COLUMN_LIMIT || schema_metadata_len(batch) != 0 {
        return false;
    }
    let mut index: usize = 0;
    while index < count
        invariant
            index <= count,
            count == batch_model(*batch).columns.len(),
            forall|i: int|
                0 <= i < index ==> plain_field(#[trigger] batch_model(*batch).columns[i]),
        decreases count - index,
    {
        let named = column_label(batch, index).as_str().unicode_len() <= PLAIN_NAME_LIMIT;
        let bare = column_metadata_len(batch, index) == 0;
        let typed = match column_type(batch, index) {
            ColumnType::Other => false,
            _ => true,
        };
        if !named || !bare || !typed {
            assert(!plain_field(batch_model(*batch).columns[index as int]));
            return false;
        }
        index = index + 1;
    }
    true
}

} // verus!

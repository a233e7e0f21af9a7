//! What telemetry tables and the columns of their batches have to do with each other, stated
//! column by column.
use vstd::arithmetic::power2::pow2;
use vstd::prelude::*;

use crate::batch::{
    batch_model, check_schema, plain_field, plain_schema, BatchModel, ColumnModel, ColumnType,
    RecordBatch, Values,
};
use crate::error::{
    column_name, ColumnFault, EncodeStep, PayloadFault, TelemetryColumn, UWireError, WireError,
};
use crate::half::{half_bits, half_pattern, law_half_pattern, FRACTION_UNIT};
use crate::payload::ArrowWirePayload;
use crate::telemetry::{column_named, required_column, TelemetryTableV1};

verus! {

/// Whether the column at `i` is the first with the given name.
pub open spec fn first_named(columns: Seq<ColumnModel>, name: Seq<char>, i: int) -> bool {
    &&& 0 <= i < columns.len()
    &&& columns[i].name == name
    &&& forall|j: int| 0 <= j < i ==> (#[trigger] columns[j]).name != name
}

/// Whether no column has the given name.
pub open spec fn unnamed(columns: Seq<ColumnModel>, name: Seq<char>) -> bool {
    forall|j: int| 0 <= j < columns.len() ==> (#[trigger] columns[j]).name != name
}

/// Whether a column has the given type, is not nullable and has no nulls.
pub open spec fn is_exact(column: ColumnModel, data_type: ColumnType) -> bool {
    &&& column.data_type == data_type
    &&& !column.nullable
    &&& column.null_count == 0
}

/// Whether the column at `i` is the one to read timestamps from, and these are its values.
pub open spec fn gives_timestamps(columns: Seq<ColumnModel>, i: int, values: Seq<u64>) -> bool {
    &&& first_named(columns, "timestamps_ns"@, i)
    &&& is_exact(columns[i], ColumnType::UInt64)
    &&& columns[i].values == Values::UInt64(values)
}

/// Whether the column at `i` is the one to read channels from, and these are its values.
pub open spec fn gives_channels(columns: Seq<ColumnModel>, i: int, values: Seq<u32>) -> bool {
    &&& first_named(columns, "channel"@, i)
    &&& is_exact(columns[i], ColumnType::UInt32)
    &&& columns[i].values == Values::UInt32(values)
}

/// Whether the column at `i` is the one to read measured values from, and these are their bit
/// patterns.
pub open spec fn gives_values(columns: Seq<ColumnModel>, i: int, values: Seq<u64>) -> bool {
    &&& first_named(columns, "value"@, i)
    &&& is_exact(columns[i], ColumnType::Float64)
    &&& columns[i].values == Values::Float64(values)
}

/// Whether a batch has the columns of a table under the required names, and the table's values
/// in them.
pub open spec fn gives_table(columns: Seq<ColumnModel>, table: TelemetryTableV1) -> bool {
    &&& exists|i: int| gives_timestamps(columns, i, table.timestamps_ns@)
    &&& exists|i: int| gives_channels(columns, i, table.channel@)
    &&& exists|i: int| gives_values(columns, i, table.value@)
}

/// Whether a batch has three columns, with the required names and types, none nullable, and in
/// each of them exactly the values of the table, and nothing else.
pub open spec fn is_table_batch(batch: BatchModel, table: TelemetryTableV1) -> bool {
    &&& batch.rows == table.timestamps_ns@.len()
    &&& batch.metadata.len() == 0
    &&& batch.columns.len() == 3
    &&& gives_timestamps(batch.columns, 0, table.timestamps_ns@)
    &&& gives_channels(batch.columns, 1, table.channel@)
    &&& gives_values(batch.columns, 2, table.value@)
    &&& batch.columns[0].type_text == "UInt64"@
    &&& batch.columns[1].type_text == "UInt32"@
    &&& batch.columns[2].type_text == "Float64"@
    &&& forall|i: int|
        0 <= i < 3 ==> (#[trigger] batch.columns[i]).metadata.len() == 0
            && batch.columns[i].extra.len() == 0
}

proof fn lemma_first_named(columns: Seq<ColumnModel>, name: Seq<char>)
    ensures
        forall|i: int| #[trigger]
            first_named(columns, name, i) ==> column_named(columns, name) == Some(columns[i]),
        column_named(columns, name) matches Some(found) ==> exists|i: int|
            first_named(columns, name, i) && found == columns[i],
        column_named(columns, name) is None <==> unnamed(columns, name),
{
    let names = columns.map_values(|column: ColumnModel| column.name);
    names.index_of_first_ensures(name);
    match names.index_of_first(name) {
        Some(k) => {
            assert(columns[k].name == names[k]);
            assert forall|j: int| 0 <= j < k implies (#[trigger] columns[j]).name != name by {
                assert(names[j] != name);
            }
            assert(first_named(columns, name, k));
        },
        None => {
            assert forall|j: int| 0 <= j < columns.len() implies (#[trigger] columns[j]).name
                != name by {
                assert(names[j] == columns[j].name);
            }
        },
    }
}

/// A table whose columns have the same length, and no other, is converted to a batch. The batch
/// has three columns, with the required names and types, none nullable, and in each of them
/// exactly the values of the table.
pub proof fn law_table_batch(table: TelemetryTableV1, batch: Result<RecordBatch, UWireError>)
    requires
        call_ensures(TelemetryTableV1::to_record_batch, (&table,), batch),
    ensures
        batch is Ok <==> table.channel@.len() == table.timestamps_ns@.len() == table.value@.len(),
        batch matches Ok(built) ==> is_table_batch(batch_model(built), table),
        batch matches Ok(built) ==> ({
            let columns = batch_model(built).columns;
            &&& column_named(columns, "timestamps_ns"@) == Some(columns[0])
            &&& columns[0].values == Values::UInt64(table.timestamps_ns@)
            &&& column_named(columns, "channel"@) == Some(columns[1])
            &&& columns[1].values == Values::UInt32(table.channel@)
            &&& column_named(columns, "value"@) == Some(columns[2])
            &&& columns[2].values == Values::Float64(table.value@)
        }),
        batch matches Err(error) ==> error@ == (WireError::SerializationError {
            step: EncodeStep::BuildTelemetry,
            detail:
                "Invalid argument error: all columns in a record batch must have the same length"@,
        }),
{
    reveal_strlit("timestamps_ns");
    reveal_strlit("channel");
    reveal_strlit("value");
    assert("timestamps_ns"@.len() != "channel"@.len());
    assert("timestamps_ns"@.len() != "value"@.len());
    assert("channel"@.len() != "value"@.len());
    if let Ok(built) = batch {
        let columns = batch_model(built).columns;
        lemma_first_named(columns, "timestamps_ns"@);
        lemma_first_named(columns, "channel"@);
        lemma_first_named(columns, "value"@);
        assert(first_named(columns, "timestamps_ns"@, 0));
        assert(first_named(columns, "channel"@, 1));
        assert(first_named(columns, "value"@, 2));
    }
}

/// A batch is read as a table exactly if it has each of the required columns, and the table is
/// then made of the values of those columns: for each name, of the first column so named.
pub proof fn law_table_read(batch: RecordBatch, table: Result<TelemetryTableV1, UWireError>)
    requires
        call_ensures(TelemetryTableV1::from_record_batch, (batch,), table),
    ensures
        match table {
            Ok(found) => gives_table(batch_model(batch).columns, found),
            Err(_) => forall|other: TelemetryTableV1| !#[trigger]
                gives_table(batch_model(batch).columns, other),
        },
        table matches Ok(found) ==> ({
            let columns = batch_model(batch).columns;
            &&& column_named(columns, "timestamps_ns"@) matches Some(column) && column.values
                == Values::UInt64(found.timestamps_ns@)
            &&& column_named(columns, "channel"@) matches Some(column) && column.values
                == Values::UInt32(found.channel@)
            &&& column_named(columns, "value"@) matches Some(column) && column.values
                == Values::Float64(found.value@)
        }),
{
    let columns = batch_model(batch).columns;
    lemma_first_named(columns, "timestamps_ns"@);
    lemma_first_named(columns, "channel"@);
    lemma_first_named(columns, "value"@);
    if let Ok(found) = table {
        let i = choose|i: int|
            first_named(columns, "timestamps_ns"@, i) && column_named(columns, "timestamps_ns"@)
                == Some(columns[i]);
        assert(gives_timestamps(columns, i, found.timestamps_ns@));
        let j = choose|j: int|
            first_named(columns, "channel"@, j) && column_named(columns, "channel"@) == Some(
                columns[j],
            );
        assert(gives_channels(columns, j, found.channel@));
        let k = choose|k: int|
            first_named(columns, "value"@, k) && column_named(columns, "value"@) == Some(
                columns[k],
            );
        assert(gives_values(columns, k, found.value@));
    }
}

/// A table has one batch: two batches with exactly its values in the required columns, and nothing
/// else, are the same.
pub proof fn law_one_batch(table: TelemetryTableV1, one: BatchModel, other: BatchModel)
    requires
        is_table_batch(one, table),
        is_table_batch(other, table),
    ensures
        one == other,
{
    assert forall|i: int| 0 <= i < 3 implies one.columns[i] == other.columns[i] by {
        assert(one.columns[i].metadata =~= other.columns[i].metadata);
        assert(one.columns[i].extra =~= other.columns[i].extra);
        assert(i == 0 || i == 1 || i == 2);
    }
    assert(one.columns =~= other.columns);
    assert(one.metadata =~= other.metadata);
}

/// Whether values are those of an array of the given type.
pub open spec fn are_of_type(values: Values, data_type: ColumnType) -> bool {
    match values {
        Values::UInt64(_) => data_type is UInt64,
        Values::UInt32(_) => data_type is UInt32,
        Values::Float64(_) => data_type is Float64,
        Values::Other => data_type is Other,
    }
}

/// Whether a fault is what is wrong with the column to read under the given name: there is none,
/// or the first so named is of another type, or nullable, or has nulls, or has an array of
/// another type.
pub open spec fn is_fault(
    columns: Seq<ColumnModel>,
    name: Seq<char>,
    data_type: ColumnType,
    fault: ColumnFault<Seq<char>>,
) -> bool {
    match fault {
        ColumnFault::Missing => unnamed(columns, name),
        ColumnFault::WrongType(text) => exists|i: int| #[trigger]
            first_named(columns, name, i) && columns[i].data_type != data_type
                && columns[i].type_text == text,
        ColumnFault::Nullable => exists|i: int| #[trigger]
            first_named(columns, name, i) && columns[i].data_type == data_type
                && columns[i].nullable,
        ColumnFault::NullValues => exists|i: int| #[trigger]
            first_named(columns, name, i) && columns[i].data_type == data_type
                && !columns[i].nullable && columns[i].null_count > 0,
        ColumnFault::Downcast => exists|i: int| #[trigger]
            first_named(columns, name, i) && is_exact(columns[i], data_type) && !are_of_type(
                columns[i].values,
                data_type,
            ),
    }
}

/// A batch that is not read as a table is refused for one of the required columns, with what is
/// wrong with it: the timestamps first, the channels if the timestamps can be read, and the
/// measured values if both can.
pub proof fn law_table_refused(batch: RecordBatch, error: UWireError)
    requires
        call_ensures(
            TelemetryTableV1::from_record_batch,
            (batch,),
            Err::<TelemetryTableV1, UWireError>(error),
        ),
    ensures
        error@ matches WireError::InvalidPayload(PayloadFault::Column(column, fault)) && ({
            let columns = batch_model(batch).columns;
            let timed = exists|i: int, v: Seq<u64>| gives_timestamps(columns, i, v);
            let placed = exists|i: int, v: Seq<u32>| gives_channels(columns, i, v);
            match column {
                TelemetryColumn::TimestampsNs => is_fault(
                    columns,
                    "timestamps_ns"@,
                    ColumnType::UInt64,
                    fault,
                ),
                TelemetryColumn::Channel => timed && is_fault(
                    columns,
                    "channel"@,
                    ColumnType::UInt32,
                    fault,
                ),
                TelemetryColumn::Value => timed && placed && is_fault(
                    columns,
                    "value"@,
                    ColumnType::Float64,
                    fault,
                ),
            }
        }),
{
    let columns = batch_model(batch).columns;
    lemma_first_named(columns, "timestamps_ns"@);
    lemma_first_named(columns, "channel"@);
    lemma_first_named(columns, "value"@);
    if let Some(found) = column_named(columns, "timestamps_ns"@) {
        let i = choose|i: int| first_named(columns, "timestamps_ns"@, i) && found == columns[i];
        assert(found.values is UInt64 && is_exact(found, ColumnType::UInt64) ==> gives_timestamps(
            columns,
            i,
            found.values->UInt64_0,
        ));
    }
    if let Some(found) = column_named(columns, "channel"@) {
        let i = choose|i: int| first_named(columns, "channel"@, i) && found == columns[i];
        assert(found.values is UInt32 && is_exact(found, ColumnType::UInt32) ==> gives_channels(
            columns,
            i,
            found.values->UInt32_0,
        ));
    }
}

/// A required column is found where the first column with its name stands, if that one has
/// the exact type and is not nullable and without nulls, and refused with what is wrong with it
/// otherwise.
pub proof fn law_required_column(
    batch: RecordBatch,
    column: TelemetryColumn,
    index: Result<usize, UWireError>,
)
    requires
        call_ensures(required_column, (&batch, column), index),
    ensures
        ({
            let columns = batch_model(batch).columns;
            let (name, data_type) = match column {
                TelemetryColumn::TimestampsNs => ("timestamps_ns"@, ColumnType::UInt64),
                TelemetryColumn::Channel => ("channel"@, ColumnType::UInt32),
                TelemetryColumn::Value => ("value"@, ColumnType::Float64),
            };
            match index {
                Ok(i) => first_named(columns, name, i as int) && is_exact(
                    columns[i as int],
                    data_type,
                ),
                Err(error) => error@ matches WireError::InvalidPayload(
                    PayloadFault::Column(refused, fault),
                ) && refused == column && !(fault is Downcast) && is_fault(
                    columns,
                    name,
                    data_type,
                    fault,
                ),
            }
        }),
{
    let columns = batch_model(batch).columns;
    let name = column_name(column);
    lemma_first_named(columns, name);
    if let Ok(i) = index {
        let names = columns.map_values(|found: ColumnModel| found.name);
        names.index_of_first_ensures(name);
        assert forall|j: int| 0 <= j < i implies (#[trigger] columns[j]).name != name by {
            assert(names[j] != name);
        }
        assert(names[i as int] == columns[i as int].name);
    }
}

/// Whether `bits` are the bit pattern of half of `k` as a binary64 number: all zeros for zero,
/// and otherwise those of a normal number that, with the hidden bit in front of the fraction and
/// scaled by the exponent, is half of `k`.
pub open spec fn is_half(bits: u64, k: int) -> bool {
    let field = bits as int / 4_503_599_627_370_496;
    let fraction = bits as int % 4_503_599_627_370_496;
    if k == 0 {
        bits == 0
    } else {
        &&& 1022 <= field < 1032
        &&& (4_503_599_627_370_496 + fraction) * pow2((field - 1022) as nat) == k
            * 4_503_599_627_370_496
    }
}

/// Halves of small integers have the bit patterns of those halves.
pub proof fn law_half_bits(k: u64, bits: u64)
    requires
        k < 1024,
        call_ensures(half_bits, (k,), bits),
    ensures
        is_half(bits, k as int),
{
    if k > 0 {
        law_half_pattern(k as nat);
    }
}

/// The fixture has the given number of rows. Its timestamps are those of the seed, half a
/// microsecond apart, up to a multiple of 2^64. Its channels run from zero to fifteen and start
/// again. Its values are halves of what the seed and the row number come to.
pub proof fn law_fixture(rows: usize, seed: u64, table: TelemetryTableV1)
    requires
        call_ensures(TelemetryTableV1::fixture, (rows, seed), table),
    ensures
        table.timestamps_ns@.len() == rows,
        table.channel@.len() == rows,
        table.value@.len() == rows,
        forall|i: int|
            0 <= i < rows ==> (seed * 1_000_000 + i * 500 - #[trigger] table.timestamps_ns@[i])
                % 18_446_744_073_709_551_616 == 0,
        rows > 0 ==> table.channel@[0] == 0,
        forall|i: int|
            0 < i < rows ==> #[trigger] table.channel@[i] == if table.channel@[i - 1] < 15 {
                table.channel@[i - 1] + 1
            } else {
                0
            },
        forall|i: int|
            0 <= i < rows ==> is_half(
                #[trigger] table.value@[i],
                ((seed ^ (i as u64)) % 1000) as int,
            ),
{
    assert forall|i: int| 0 <= i < rows implies (seed * 1_000_000 + i * 500
        - #[trigger] table.timestamps_ns@[i]) % 18_446_744_073_709_551_616 == 0 by {
        lemma_wrapped(seed * 1_000_000 + i * 500);
    }
    assert forall|i: int| 0 < i < rows implies #[trigger] table.channel@[i]
        == if table.channel@[i - 1] < 15 {
        table.channel@[i - 1] + 1
    } else {
        0
    } by {
        assert(table.channel@[i] == i % 16);
        assert(table.channel@[i - 1] == (i - 1) % 16);
    }
    assert forall|i: int| 0 <= i < rows implies is_half(
        #[trigger] table.value@[i],
        ((seed ^ (i as u64)) % 1000) as int,
    ) by {
        lemma_half((((seed ^ (i as u64)) % 1000) as nat));
    }
}

proof fn lemma_wrapped(total: int)
    ensures
        (total - total % 18_446_744_073_709_551_616) % 18_446_744_073_709_551_616 == 0,
        0 <= total % 18_446_744_073_709_551_616 < 18_446_744_073_709_551_616,
{
}

proof fn lemma_half(k: nat)
    requires
        k < 1000,
    ensures
        is_half(half_pattern(k) as u64, k as int),
{
    if k > 0 {
        law_half_pattern(k);
        lemma_half_fits(k);
    }
}

proof fn lemma_half_fits(k: nat)
    requires
        0 < k < 0x400,
    ensures
        0 <= half_pattern(k) <= u64::MAX,
{
    law_half_pattern(k);
    let unit = FRACTION_UNIT as int;
    let bits = half_pattern(k);
    assert(bits == bits / unit * unit + bits % unit) by (nonlinear_arith)
        requires
            unit > 0,
    ;
    assert(bits / unit * unit < 1032 * 0x10_0000_0000_0000) by (nonlinear_arith)
        requires
            bits / unit < 1032,
            unit == 0x10_0000_0000_0000,
    ;
    assert(bits / unit * unit >= 0) by (nonlinear_arith)
        requires
            bits / unit >= 0,
            unit > 0,
    ;
}

/// Whether a batch has at most a thousand columns, no schema metadata, and in each column one of
/// the three types, a name of at most a hundred thousand characters and no field metadata.
pub open spec fn is_plain_schema(batch: BatchModel) -> bool {
    &&& batch.columns.len() <= 1_000
    &&& batch.metadata.len() == 0
    &&& forall|i: int| 0 <= i < batch.columns.len() ==> is_plain_column(#[trigger] batch.columns[i])
}

/// Whether a column has one of the three types, a name of at most a hundred thousand characters
/// and no field metadata.
pub open spec fn is_plain_column(column: ColumnModel) -> bool {
    &&& column.data_type is UInt64 || column.data_type is UInt32 || column.data_type is Float64
    &&& column.name.len() <= 100_000
    &&& column.metadata.len() == 0
}

pub(crate) proof fn lemma_plain_schema(batch: BatchModel)
    ensures
        plain_schema(batch) == is_plain_schema(batch),
{
    if plain_schema(batch) {
        assert forall|i: int| 0 <= i < batch.columns.len() implies is_plain_column(
            #[trigger] batch.columns[i],
        ) by {
            assert(plain_field(batch.columns[i]));
        }
    }
    if is_plain_schema(batch) {
        assert forall|i: int| 0 <= i < batch.columns.len() implies plain_field(
            #[trigger] batch.columns[i],
        ) by {
            assert(is_plain_column(batch.columns[i]));
        }
    }
}

/// A batch is taken for one with a plain schema exactly if it has one.
pub proof fn law_plain_schema(batch: RecordBatch, plain: bool)
    requires
        call_ensures(check_schema, (&batch,), plain),
    ensures
        plain <==> is_plain_schema(batch_model(batch)),
{
    lemma_plain_schema(batch_model(batch));
}

} // verus!

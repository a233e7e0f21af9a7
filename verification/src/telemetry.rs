//! The reference telemetry payload.
use vstd::arithmetic::div_mod::lemma_add_mod_noop;
use vstd::prelude::*;

use crate::batch::{
    batch_model, column_float64, column_index, column_null_count, column_nullable, column_type,
    column_type_text, column_u32, column_u64, columns_fit, columns_model, new_batch,
    plain_schema, BatchModel, Column, ColumnData, ColumnModel, ColumnType, RecordBatch, Values,
};
use crate::error::{
    column_name, column_type_name, ColumnFault, EncodeStep, ErrorModel, FaultModel, PayloadFault,
    TelemetryColumn, UWireError, WireError,
};
use crate::half::{half_bits, half_pattern};
use crate::payload::ArrowWirePayload;

verus! {

/// Reference telemetry payload.
///
/// The measured values are held as their IEEE 754 binary64 bit patterns, as
/// `f64::to_bits` gives them.
#[derive(Clone, Debug, PartialEq, Eq)]
pub struct TelemetryTableV1 {
    /// Monotonic sample timestamps in nanoseconds.
    pub timestamps_ns: Vec<u64>,
    /// Sensor channel IDs, parallel to `timestamps_ns`.
    pub channel: Vec<u32>,
    /// Bit patterns of the measured values, parallel to `timestamps_ns`.
    pub value: Vec<u64>,
}

/// A telemetry table in contracts.
#[verifier::ext_equal]
pub ghost struct TelemetryModel {
    pub timestamps_ns: Seq<u64>,
    pub channel: Seq<u32>,
    pub value: Seq<u64>,
}

impl View for TelemetryTableV1 {
    type V = TelemetryModel;

    open spec fn view(&self) -> TelemetryModel {
        TelemetryModel {
            timestamps_ns: self.timestamps_ns@,
            channel: self.channel@,
            value: self.value@,
        }
    }
}

impl TelemetryModel {
    /// Whether the three columns have the same length.
    pub open spec fn parallel(self) -> bool {
        &&& self.channel.len() == self.timestamps_ns.len()
        &&& self.value.len() == self.timestamps_ns.len()
    }
}

/// The type that a required column must have.
pub open spec fn expected_type(column: TelemetryColumn) -> ColumnType {
    match column {
        TelemetryColumn::TimestampsNs => ColumnType::UInt64,
        TelemetryColumn::Channel => ColumnType::UInt32,
        TelemetryColumn::Value => ColumnType::Float64,
    }
}

/// The required column with the given values, as it is written.
pub open spec fn written_column(column: TelemetryColumn, values: Values) -> ColumnModel {
    ColumnModel {
        name: column_name(column),
        data_type: expected_type(column),
        type_text: column_type_name(column),
        nullable: false,
        null_count: 0,
        values,
        metadata: Seq::empty(),
        extra: Seq::empty(),
    }
}

/// The batch that a telemetry table is written as.
pub open spec fn telemetry_batch(table: TelemetryModel) -> BatchModel {
    BatchModel {
        columns: seq![
            written_column(TelemetryColumn::TimestampsNs, Values::UInt64(table.timestamps_ns)),
            written_column(TelemetryColumn::Channel, Values::UInt32(table.channel)),
            written_column(TelemetryColumn::Value, Values::Float64(table.value)),
        ],
        rows: table.timestamps_ns.len(),
        metadata: Seq::empty(),
    }
}

/// Why a table whose columns differ in length has no batch.
pub open spec fn uneven_columns() -> ErrorModel {
    WireError::SerializationError {
        step: EncodeStep::BuildTelemetry,
        detail: "Invalid argument error: all columns in a record batch must have the same length"@,
    }
}

/// The first column with the given name.
pub open spec fn column_named(columns: Seq<ColumnModel>, name: Seq<char>) -> Option<ColumnModel> {
    match columns.map_values(|column: ColumnModel| column.name).index_of_first(name) {
        Some(index) => Some(columns[index]),
        None => None,
    }
}

/// Whether values are those of the array type that a required column calls for.
pub open spec fn values_match(column: TelemetryColumn, values: Values) -> bool {
    match column {
        TelemetryColumn::TimestampsNs => values is UInt64,
        TelemetryColumn::Channel => values is UInt32,
        TelemetryColumn::Value => values is Float64,
    }
}

/// What is wrong with a column that stands under a required column's name, up to its array
/// type.
pub open spec fn column_fault(column: TelemetryColumn, found: ColumnModel) -> Option<
    ColumnFault<Seq<char>>,
> {
    if found.data_type != expected_type(column) {
        Some(ColumnFault::WrongType(found.type_text))
    } else if found.nullable {
        Some(ColumnFault::Nullable)
    } else if found.null_count != 0 {
        Some(ColumnFault::NullValues)
    } else {
        None
    }
}

/// The values of a required column, or what is wrong with it.
pub open spec fn required_values(columns: Seq<ColumnModel>, column: TelemetryColumn) -> Result<
    Values,
    ColumnFault<Seq<char>>,
> {
    match column_named(columns, column_name(column)) {
        None => Err(ColumnFault::Missing),
        Some(found) => match column_fault(column, found) {
            Some(fault) => Err(fault),
            None => if values_match(column, found.values) {
                Ok(found.values)
            } else {
                Err(ColumnFault::Downcast)
            },
        },
    }
}

/// The telemetry table that a batch with the given columns holds, or the first fault among
/// its required columns.
pub open spec fn telemetry_of(columns: Seq<ColumnModel>) -> Result<TelemetryModel, FaultModel> {
    let timestamps = TelemetryColumn::TimestampsNs;
    match required_values(columns, timestamps) {
        Err(fault) => Err(PayloadFault::Column(timestamps, fault)),
        Ok(timestamps_ns) => match required_values(columns, TelemetryColumn::Channel) {
            Err(fault) => Err(PayloadFault::Column(TelemetryColumn::Channel, fault)),
            Ok(channel) => match required_values(columns, TelemetryColumn::Value) {
                Err(fault) => Err(PayloadFault::Column(TelemetryColumn::Value, fault)),
                Ok(value) => Ok(
                    TelemetryModel {
                        timestamps_ns: timestamps_ns->UInt64_0,
                        channel: channel->UInt32_0,
                        value: value->Float64_0,
                    },
                ),
            },
        },
    }
}

fn column_error(column: TelemetryColumn, fault: ColumnFault<String>) -> (error: UWireError)
    ensures
        error@ == WireError::InvalidPayload(PayloadFault::Column(column, fault@)),
{
    WireError::InvalidPayload(PayloadFault::Column(column, fault))
}

/// Finds a required column: present, of the exact type, not nullable and without nulls.
pub fn required_column(batch: &RecordBatch, column: TelemetryColumn) -> (index: Result<
    usize,
    UWireError,
>)
    ensures
        ({
            let columns = batch_model(*batch).columns;
            match index {
                Ok(i) => {
                    &&& i < columns.len()
                    &&& columns.map_values(|found: ColumnModel| found.name).index_of_first(
                        column_name(column),
                    ) == Some(i as int)
                    &&& column_named(columns, column_name(column)) == Some(columns[i as int])
                    &&& column_fault(column, columns[i as int]) is None
                },
                Err(error) => error@ matches WireError::InvalidPayload(
                    PayloadFault::Column(refused, fault),
                ) && refused == column && match column_named(columns, column_name(column)) {
                    None => fault is Missing,
                    Some(found) => column_fault(column, found) == Some(fault),
                },
            }
        }),
{
    let ghost columns = batch_model(*batch).columns;
    let ghost names = columns.map_values(|column: ColumnModel| column.name);
    proof {
        names.index_of_first_ensures(column_name(column));
    }
    let index = match column_index(batch, column.name()) {
        Some(index) => index,
        None => {
            assert forall|j: int| 0 <= j < names.len() implies names[j] != column_name(column) by {
                assert(columns[j].name != column_name(column));
            }
            return Err(column_error(column, ColumnFault::Missing));
        },
    };
    assert(names.index_of_first(column_name(column)) == Some(index as int)) by {
        assert(names[index as int] == column_name(column));
        assert forall|j: int| 0 <= j < index implies names[j] != column_name(column) by {
            assert(columns[j].name != column_name(column));
        }
    }
    let expected = match column {
        TelemetryColumn::TimestampsNs => ColumnType::UInt64,
        TelemetryColumn::Channel => ColumnType::UInt32,
        TelemetryColumn::Value => ColumnType::Float64,
    };
    if column_type(batch, index) != expected {
        return Err(column_error(column, ColumnFault::WrongType(column_type_text(batch, index))));
    }
    if column_nullable(batch, index) {
        return Err(column_error(column, ColumnFault::Nullable));
    }
    if column_null_count(batch, index) != 0 {
        return Err(column_error(column, ColumnFault::NullValues));
    }
    Ok(index)
}

proof fn lemma_telemetry_plain(table: TelemetryModel)
    ensures
        plain_schema(telemetry_batch(table)),
{
    reveal_strlit("timestamps_ns");
    reveal_strlit("channel");
    reveal_strlit("value");
}

impl ArrowWirePayload for TelemetryTableV1 {
    fn to_record_batch(&self) -> (batch: Result<RecordBatch, UWireError>)
        ensures
            match batch {
                Ok(built) => {
                    &&& self@.parallel()
                    &&& batch_model(built) == telemetry_batch(self@)
                    &&& plain_schema(batch_model(built))
                },
                Err(error) => !self@.parallel() && error@ == uneven_columns(),
            },
    {
        let columns = vec![
            Column {
                name: TelemetryColumn::TimestampsNs.name().to_string(),
                nullable: false,
                data: ColumnData::UInt64(self.timestamps_ns.clone()),
            },
            Column {
                name: TelemetryColumn::Channel.name().to_string(),
                nullable: false,
                data: ColumnData::UInt32(self.channel.clone()),
            },
            Column {
                name: TelemetryColumn::Value.name().to_string(),
                nullable: false,
                data: ColumnData::Float64(self.value.clone()),
            },
        ];
        proof {
            assert(columns@[0].data.spec_len() == self@.timestamps_ns.len());
            assert(columns@[1].data.spec_len() == self@.channel.len());
            assert(columns@[2].data.spec_len() == self@.value.len());
            assert(columns_fit(columns@) == self@.parallel());
            assert(columns_model(columns@).columns =~= telemetry_batch(self@).columns);
            lemma_telemetry_plain(self@);
        }
        match new_batch(columns) {
            Ok(batch) => Ok(batch),
            Err(detail) => Err(
                WireError::SerializationError { step: EncodeStep::BuildTelemetry, detail },
            ),
        }
    }

    fn from_record_batch(batch: RecordBatch) -> (table: Result<Self, UWireError>)
        ensures
            match table {
                Ok(found) => {
                    &&& telemetry_of(batch_model(batch).columns) == Ok::<
                        TelemetryModel,
                        FaultModel,
                    >(found@)
                    &&& found@.parallel()
                    &&& found@.timestamps_ns.len() == batch_model(batch).rows
                },
                Err(error) => error@ matches WireError::InvalidPayload(fault) && telemetry_of(
                    batch_model(batch).columns,
                ) == Err::<TelemetryModel, FaultModel>(fault),
            },
    {
        let timestamps = TelemetryColumn::TimestampsNs;
        let index = required_column(&batch, timestamps)?;
        let timestamps_ns = match column_u64(&batch, index) {
            Some(values) => values,
            None => return Err(column_error(timestamps, ColumnFault::Downcast)),
        };
        let index = required_column(&batch, TelemetryColumn::Channel)?;
        let channel = match column_u32(&batch, index) {
            Some(values) => values,
            None => return Err(column_error(TelemetryColumn::Channel, ColumnFault::Downcast)),
        };
        let index = required_column(&batch, TelemetryColumn::Value)?;
        let value = match column_float64(&batch, index) {
            Some(values) => values,
            None => return Err(column_error(TelemetryColumn::Value, ColumnFault::Downcast)),
        };
        Ok(TelemetryTableV1 { timestamps_ns, channel, value })
    }
}

/// The table of the deterministic fixture.
pub open spec fn fixture_table(rows: nat, seed: u64) -> TelemetryModel {
    TelemetryModel {
        timestamps_ns: Seq::new(
            rows,
            |i: int| ((seed * 1_000_000 + i * 500) % 0x1_0000_0000_0000_0000) as u64,
        ),
        channel: Seq::new(rows, |i: int| (i % 16) as u32),
        value: Seq::new(rows, |i: int| half_pattern(((seed ^ (i as u64)) % 1_000) as nat) as u64),
    }
}

impl TelemetryTableV1 {
    /// Builds a deterministic fixture with wrapping integer arithmetic: timestamps half a
    /// microsecond apart, sixteen channels in turn, and halves of small integers as values.
    #[must_use]
    pub fn fixture(rows: usize, seed: u64) -> (table: Self)
        requires
            rows <= isize::MAX / 8,
        ensures
            table@ == fixture_table(rows as nat, seed),
    {
        let mut timestamps_ns: Vec<u64> = Vec::with_capacity(rows);
        let mut channel: Vec<u32> = Vec::with_capacity(rows);
        let mut value: Vec<u64> = Vec::with_capacity(rows);
        let mut index: usize = 0;
        while index < rows
            invariant
                index <= rows,
                timestamps_ns@ =~= fixture_table(index as nat, seed).timestamps_ns,
                channel@ =~= fixture_table(index as nat, seed).channel,
                value@ =~= fixture_table(index as nat, seed).value,
            decreases rows - index,
        {
            let sample: u64 = index as u64;
            let timestamp = seed.wrapping_mul(1_000_000).wrapping_add(sample.wrapping_mul(500));
            proof {
                lemma_add_mod_noop(seed * 1_000_000, sample * 500, 0x1_0000_0000_0000_0000);
            }
            timestamps_ns.push(timestamp);
            channel.push((index % 16) as u32);
            value.push(half_bits((seed ^ sample) % 1_000));
            index = index + 1;
        }
        TelemetryTableV1 { timestamps_ns, channel, value }
    }
}

proof fn lemma_named(columns: Seq<ColumnModel>, name: Seq<char>)
    ensures
        match column_named(columns, name) {
            Some(found) => exists|i: int|
                0 <= i < columns.len() && found == #[trigger] columns[i] && found.name == name
                    && forall|j: int| 0 <= j < i ==> (#[trigger] columns[j]).name != name,
            None => forall|j: int| 0 <= j < columns.len() ==> (#[trigger] columns[j]).name != name,
        },
{
    let names = columns.map_values(|column: ColumnModel| column.name);
    names.index_of_first_ensures(name);
    match names.index_of_first(name) {
        Some(i) => {
            assert(names[i] == columns[i].name);
            assert forall|j: int| 0 <= j < i implies (#[trigger] columns[j]).name != name by {
                assert(names[j] != name);
            }
        },
        None => {
            assert forall|j: int| 0 <= j < columns.len() implies (#[trigger] columns[j]).name
                != name by {
                assert(names[j] == columns[j].name);
            }
        },
    }
}

proof fn lemma_named_at(columns: Seq<ColumnModel>, name: Seq<char>, at: int)
    requires
        0 <= at < columns.len(),
        columns[at].name == name,
        forall|j: int| 0 <= j < at ==> (#[trigger] columns[j]).name != name,
    ensures
        column_named(columns, name) == Some(columns[at]),
{
    let names = columns.map_values(|column: ColumnModel| column.name);
    names.index_of_first_ensures(name);
    assert(names[at] == name);
    let first = names.index_of_first(name)->Some_0;
    assert(names[first] == columns[first].name);
}

/// What a table is written as is read back as the same table.
pub proof fn law_telemetry_round_trip(table: TelemetryModel)
    ensures
        telemetry_of(telemetry_batch(table).columns) == Ok::<TelemetryModel, FaultModel>(table),
{
    reveal_strlit("timestamps_ns");
    reveal_strlit("channel");
    reveal_strlit("value");
    let columns = telemetry_batch(table).columns;
    assert("timestamps_ns"@.len() != "channel"@.len());
    assert("timestamps_ns"@.len() != "value"@.len());
    assert("channel"@.len() != "value"@.len());
    lemma_named_at(columns, column_name(TelemetryColumn::TimestampsNs), 0);
    lemma_named_at(columns, column_name(TelemetryColumn::Channel), 1);
    lemma_named_at(columns, column_name(TelemetryColumn::Value), 2);
}

/// Whether a name is that of a required column.
pub open spec fn required_name(name: Seq<char>) -> bool {
    exists|column: TelemetryColumn| name == #[trigger] column_name(column)
}

proof fn lemma_insert_named(
    columns: Seq<ColumnModel>,
    at: int,
    added: ColumnModel,
    name: Seq<char>,
)
    requires
        0 <= at <= columns.len(),
        added.name != name,
    ensures
        column_named(columns.insert(at, added), name) == column_named(columns, name),
{
    let more = columns.insert(at, added);
    lemma_named(columns, name);
    lemma_named(more, name);
    assert forall|j: int| 0 <= j < more.len() implies more[j] == if j < at {
        columns[j]
    } else if j == at {
        added
    } else {
        columns[j - 1]
    } by {}
    match column_named(columns, name) {
        Some(found) => {
            let i = choose|i: int|
                0 <= i < columns.len() && found == #[trigger] columns[i] && found.name == name
                    && forall|j: int| 0 <= j < i ==> (#[trigger] columns[j]).name != name;
            let moved = if i < at {
                i
            } else {
                i + 1
            };
            assert(more[moved] == found);
            lemma_named_at(more, name, moved);
        },
        None => {
            if let Some(found) = column_named(more, name) {
                let i = choose|i: int|
                    0 <= i < more.len() && found == #[trigger] more[i] && found.name == name
                        && forall|j: int| 0 <= j < i ==> (#[trigger] more[j]).name != name;
                assert(columns[if i < at { i } else { i - 1 }].name == name);
            }
        },
    }
}

/// A column under any other name can be added anywhere: a batch is read the same with and
/// without it.
pub proof fn law_additive_columns(columns: Seq<ColumnModel>, at: int, added: ColumnModel)
    requires
        0 <= at <= columns.len(),
        !required_name(added.name),
    ensures
        telemetry_of(columns.insert(at, added)) == telemetry_of(columns),
{
    assert(added.name != column_name(TelemetryColumn::TimestampsNs));
    assert(added.name != column_name(TelemetryColumn::Channel));
    assert(added.name != column_name(TelemetryColumn::Value));
    lemma_insert_named(columns, at, added, column_name(TelemetryColumn::TimestampsNs));
    lemma_insert_named(columns, at, added, column_name(TelemetryColumn::Channel));
    lemma_insert_named(columns, at, added, column_name(TelemetryColumn::Value));
}

/// Whether no two columns have the given name.
pub open spec fn named_once(columns: Seq<ColumnModel>, name: Seq<char>) -> bool {
    forall|i: int, j: int|
        #![trigger columns[i], columns[j]]
        0 <= i < columns.len() && 0 <= j < columns.len() && columns[i].name == name
            && columns[j].name == name ==> i == j
}

proof fn lemma_reordered_member(from: Seq<ColumnModel>, to: Seq<ColumnModel>, column: ColumnModel)
    requires
        from.to_multiset() == to.to_multiset(),
        from.contains(column),
    ensures
        to.contains(column),
{
    from.to_multiset_ensures();
    to.to_multiset_ensures();
    assert(from.to_multiset().count(column) > 0);
}

proof fn lemma_reordered_once(from: Seq<ColumnModel>, to: Seq<ColumnModel>, name: Seq<char>)
    requires
        from.to_multiset() == to.to_multiset(),
        named_once(from, name),
    ensures
        named_once(to, name),
{
    broadcast use vstd::multiset::group_multiset_axioms;

    from.to_multiset_ensures();
    to.to_multiset_ensures();
    assert forall|i: int, j: int|
        0 <= i < to.len() && 0 <= j < to.len() && (#[trigger] to[i]).name == name && (
        #[trigger] to[j]).name == name implies i == j by {
        if i != j {
            assert(to.contains(to[i]) && to.contains(to[j]));
            lemma_reordered_member(to, from, to[i]);
            lemma_reordered_member(to, from, to[j]);
            let k = choose|k: int| 0 <= k < from.len() && from[k] == to[i];
            let m = choose|m: int| 0 <= m < from.len() && from[m] == to[j];
            assert(from[k].name == from[m].name);
            assert(k == m);
            let both = to[i];
            let fewer = to.remove(j);
            fewer.to_multiset_ensures();
            assert(fewer[if i < j { i } else { i - 1 }] == both);
            assert(fewer.contains(both));
            assert(fewer.to_multiset().count(both) > 0);
            assert(fewer.to_multiset() == to.to_multiset().remove(both));
            assert(to.to_multiset().count(both) >= 2);
            let left = from.remove(k);
            left.to_multiset_ensures();
            assert(left.to_multiset() == from.to_multiset().remove(both));
            assert(left.to_multiset().count(both) > 0);
            assert(left.contains(both));
            let n = choose|n: int| 0 <= n < left.len() && left[n] == both;
            let other = if n < k {
                n
            } else {
                n + 1
            };
            assert(from[other] == both);
        }
    }
}

proof fn lemma_reordered_named(from: Seq<ColumnModel>, to: Seq<ColumnModel>, name: Seq<char>)
    requires
        from.to_multiset() == to.to_multiset(),
        named_once(from, name),
    ensures
        column_named(from, name) == column_named(to, name),
{
    lemma_reordered_once(from, to, name);
    lemma_named(from, name);
    lemma_named(to, name);
    if let Some(found) = column_named(from, name) {
        lemma_reordered_member(from, to, found);
        let i = choose|i: int| 0 <= i < to.len() && to[i] == found;
        lemma_named_at(to, name, i);
    } else if let Some(found) = column_named(to, name) {
        lemma_reordered_member(to, from, found);
        let i = choose|i: int| 0 <= i < from.len() && from[i] == found;
        assert(from[i].name == name);
    }
}

/// Columns can be reordered: batches with the same columns are read the same, in whatever
/// order the columns stand, as long as no required name stands twice.
pub proof fn law_reordered_columns(from: Seq<ColumnModel>, to: Seq<ColumnModel>)
    requires
        from.to_multiset() == to.to_multiset(),
        forall|column: TelemetryColumn| named_once(from, #[trigger] column_name(column)),
    ensures
        telemetry_of(from) == telemetry_of(to),
{
    lemma_reordered_named(from, to, column_name(TelemetryColumn::TimestampsNs));
    lemma_reordered_named(from, to, column_name(TelemetryColumn::Channel));
    lemma_reordered_named(from, to, column_name(TelemetryColumn::Value));
}

/// A batch that is read has each required column, of the exact type, not nullable and
/// without null values.
pub proof fn law_required_columns(columns: Seq<ColumnModel>, column: TelemetryColumn)
    requires
        telemetry_of(columns) is Ok,
    ensures
        column_named(columns, column_name(column)) matches Some(found) && found.name == column_name(
            column,
        ) && found.data_type == expected_type(column) && !found.nullable && found.null_count == 0,
{
    lemma_named(columns, column_name(column));
}

} // verus!

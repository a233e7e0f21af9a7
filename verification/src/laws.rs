//! What holds of encoding and decoding taken together.
use vstd::prelude::*;

use crate::batch::{batch_model, BatchModel, RecordBatch};
use crate::envelope::{envelope, ipc_eos};
use crate::error::{ErrorModel, FaultModel, UWireError, WireError};
use crate::framing::{law_trailing_bytes, law_truncated_streams};
use crate::payload::ArrowWirePayload;
use crate::telemetry::{
    law_telemetry_round_trip, telemetry_batch, uneven_columns, TelemetryTableV1,
};
use crate::wire::{
    batch_encodes, decodes_to, encodable, encodes, over_limit, payload_decodes, plainly_decodable,
    value_encodes,
};
use crate::MAX_ARROW_PAYLOAD_LEN;

verus! {

/// An encoded batch keeps the size limit and ends in the end-of-stream marker.
pub proof fn law_encoded_batch(batch: BatchModel, bytes: Seq<u8>)
    requires
        encodes(batch, Ok(bytes)),
    ensures
        bytes.len() <= MAX_ARROW_PAYLOAD_LEN,
        bytes.len() >= 8,
        bytes.skip(bytes.len() - 8) == ipc_eos(),
{
    assert(bytes.skip(bytes.len() - 8) =~= ipc_eos());
}

/// Whatever a payload type makes of its value, an encoded payload keeps the size limit, ends in
/// the end-of-stream marker, and is a complete stream with exactly one record batch that is not
/// compressed, unless the metadata of a message goes beyond what can be parsed.
pub proof fn law_encoded_payload<T: ArrowWirePayload>(value: T, bytes: Seq<u8>)
    requires
        value_encodes(&value, Ok(bytes)),
    ensures
        bytes.len() <= MAX_ARROW_PAYLOAD_LEN,
        bytes.len() >= 8,
        bytes.skip(bytes.len() - 8) == ipc_eos(),
        envelope(bytes) matches Err(fault) ==> fault is Metadata,
{
    let batch = choose|batch: Result<RecordBatch, UWireError>|
        #[trigger] call_ensures(T::to_record_batch, (&value,), batch) && batch_encodes(
            batch,
            Ok(bytes),
        );
    law_encoded_batch(batch_model(batch->Ok_0), bytes);
}

/// A batch has one encoding: if it is encoded once, it is encoded every time, as the same
/// bytes. So the layout of a value, its owned encoding and its encoding in place agree.
pub proof fn law_one_encoding(
    batch: BatchModel,
    one: Result<Seq<u8>, ErrorModel>,
    other: Result<Seq<u8>, ErrorModel>,
)
    requires
        encodes(batch, one),
        encodes(batch, other),
    ensures
        one is Ok <==> other is Ok,
        one is Ok ==> one == other,
{
}

/// Every telemetry table can be encoded without a panic.
pub proof fn law_telemetry_encodable(table: TelemetryTableV1)
    ensures
        encodable(&table),
{
}

/// A telemetry table is encoded exactly if its columns have the same length and what they are
/// written as keeps the size limit. The encoding is that of its three columns.
pub proof fn law_telemetry_encoding(
    table: TelemetryTableV1,
    outcome: Result<Seq<u8>, ErrorModel>,
)
    requires
        value_encodes(&table, outcome),
    ensures
        !table@.parallel() ==> outcome == Err::<Seq<u8>, ErrorModel>(uneven_columns()),
        table@.parallel() ==> encodes(telemetry_batch(table@), outcome),
        table@.parallel() ==> match outcome {
            Ok(bytes) => decodes_to(bytes, telemetry_batch(table@)),
            Err(error) => over_limit(error),
        },
{
    let batch = choose|batch: Result<RecordBatch, UWireError>|
        #[trigger] call_ensures(TelemetryTableV1::to_record_batch, (&table,), batch)
            && batch_encodes(batch, outcome);
}

/// What a telemetry table is encoded as decodes to the same table.
pub proof fn law_round_trip(
    table: TelemetryTableV1,
    bytes: Seq<u8>,
    decoded: Result<TelemetryTableV1, UWireError>,
)
    requires
        value_encodes(&table, Ok(bytes)),
        payload_decodes(bytes, decoded),
    ensures
        plainly_decodable(bytes),
        decoded matches Ok(found) && found@ == table@,
{
    law_telemetry_encoding(table, Ok(bytes));
    law_telemetry_round_trip(table@);
}

/// The columns of a decoded telemetry table have the same length, so the table can be encoded
/// again, as far as the size limit goes.
pub proof fn law_decoded_table(src: Seq<u8>, table: TelemetryTableV1)
    requires
        payload_decodes::<TelemetryTableV1>(src, Ok(table)),
    ensures
        table@.parallel(),
{
}

/// Equal telemetry tables have equal encodings.
pub proof fn law_equal_tables(
    table: TelemetryTableV1,
    same: TelemetryTableV1,
    one: Result<Seq<u8>, ErrorModel>,
    other: Result<Seq<u8>, ErrorModel>,
)
    requires
        table@ == same@,
        value_encodes(&table, one),
        value_encodes(&same, other),
    ensures
        one is Ok <==> other is Ok,
        one is Ok ==> one == other,
{
    law_telemetry_encoding(table, one);
    law_telemetry_encoding(same, other);
    if table@.parallel() {
        law_one_encoding(telemetry_batch(table@), one, other);
    }
}

/// A payload over the size limit is refused for its length, whatever it holds.
pub proof fn law_oversized_payload<T: ArrowWirePayload>(
    src: Seq<u8>,
    decoded: Result<T, UWireError>,
)
    requires
        MAX_ARROW_PAYLOAD_LEN < src.len() <= usize::MAX,
        payload_decodes(src, decoded),
    ensures
        decoded matches Err(error) && error@ == WireError::InvalidPayload(
            FaultModel::TooLong(src.len() as usize),
        ),
{
}

/// A payload that was cut short is refused as invalid, wherever it was cut.
pub proof fn law_truncated_payload<T: ArrowWirePayload>(
    src: Seq<u8>,
    keep: int,
    decoded: Result<T, UWireError>,
)
    requires
        envelope(src) is Ok,
        0 <= keep < src.len(),
        payload_decodes(src.take(keep), decoded),
    ensures
        decoded matches Err(error) && error@ is InvalidPayload,
{
    law_truncated_streams(src, keep);
}

/// A payload with bytes behind its stream is refused as invalid: as too long, or for its
/// trailing bytes.
pub proof fn law_extended_payload<T: ArrowWirePayload>(
    src: Seq<u8>,
    extra: Seq<u8>,
    decoded: Result<T, UWireError>,
)
    requires
        envelope(src) is Ok,
        extra.len() > 0,
        payload_decodes(src + extra, decoded),
    ensures
        decoded matches Err(error) && error@ == WireError::InvalidPayload(
            if (src + extra).len() > MAX_ARROW_PAYLOAD_LEN {
                FaultModel::TooLong((src + extra).len() as usize)
            } else {
                FaultModel::TrailingBytes
            },
        ),
{
    law_trailing_bytes(src, extra);
}

} // verus!

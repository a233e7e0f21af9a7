//! What encoding and decoding come to, stated over the calls that do it.
use bytes::Bytes;
use vstd::prelude::*;

use crate::batch::{batch_model, plain_schema, BatchModel, RecordBatch};
use crate::columns::{
    gives_table, is_plain_schema, is_table_batch, law_one_batch, law_table_batch, law_table_read,
    law_table_refused, lemma_plain_schema,
};
use crate::envelope::{
    ensure_payload_limit, envelope, prefix_at, sites_from, step_over, Prefix, StreamSite,
};
use crate::error::{EncodeStep, ErrorModel, FaultModel, PayloadFault, UWireError, WireError};
use crate::laws::{law_round_trip, law_telemetry_encodable, law_telemetry_encoding};
use crate::message::message_info;
use crate::parts::{law_well_formed, well_formed};
use crate::payload::ArrowWirePayload;
use crate::stream::{
    batch_messages, limit_text, opening_returns, reading_returns, schema_message, stream_items,
    stream_opening, writes, writing_returns,
};
use crate::telemetry::TelemetryTableV1;
use crate::text::decimal;
use crate::wire::{
    batch_encodes, bytes_content, decode_value, encodable, encode_batch, encode_value, encoded_view,
    layout_of_outcome, only_batch, owned_view, payload_decodes, placed, read_decodes, tried_view,
    try_encode_batch, try_encode_value, value_encodes, value_tries, ArrowWire, PayloadLayout,
    ReadOutcome,
};
use crate::MAX_ARROW_PAYLOAD_LEN;

verus! {

/// A payload length is accepted up to 64 MiB, and refused with the length itself beyond.
pub proof fn law_payload_limit(len: usize, checked: Result<(), UWireError>)
    requires
        call_ensures(ensure_payload_limit, (len,), checked),
    ensures
        checked is Ok <==> len <= 67_108_864,
        checked matches Err(error) ==> error == UWireError::InvalidPayload(
            PayloadFault::TooLong(len),
        ),
{
}

/// Whether a schema message and the messages of a batch, with the end-of-stream marker behind
/// them, are a payload of the given bytes.
pub open spec fn is_stream(bytes: Seq<u8>, schema: Seq<u8>, messages: Seq<u8>) -> bool {
    bytes == schema + messages + seq![255u8, 255u8, 255u8, 255u8, 0u8, 0u8, 0u8, 0u8]
}

/// Whether an encoding outcome is owed to a batch. Bytes are its stream, within 64 MiB. An error
/// names the first step that fails, for the reason that Arrow gives or because the messages
/// up to there take more than 64 MiB.
pub open spec fn is_written(batch: BatchModel, outcome: Result<Seq<u8>, ErrorModel>) -> bool {
    let over = "Io error: Arrow IPC payload exceeds the 67108864-byte limit"@;
    match outcome {
        Ok(bytes) => {
            &&& bytes.len() <= 67_108_864
            &&& schema_message(batch) matches Ok(schema)
            &&& batch_messages(batch) matches Ok(messages)
            &&& is_stream(bytes, schema, messages)
        },
        Err(WireError::SerializationError { step: EncodeStep::CreateStream, detail }) => match
            schema_message(batch) {
            Ok(schema) => schema.len() > 67_108_864 && detail == over,
            Err(own) => detail == own,
        },
        Err(WireError::SerializationError { step: EncodeStep::WriteBatch, detail }) => {
            &&& schema_message(batch) matches Ok(schema)
            &&& schema.len() <= 67_108_864
            &&& match batch_messages(batch) {
                Ok(messages) => schema.len() + messages.len() > 67_108_864 && detail == over,
                Err(own) => detail == own || detail == over,
            }
        },
        Err(WireError::SerializationError { step: EncodeStep::FinishStream, detail }) => {
            &&& schema_message(batch) matches Ok(schema)
            &&& batch_messages(batch) matches Ok(messages)
            &&& schema.len() + messages.len() <= 67_108_864
            &&& schema.len() + messages.len() + 8 > 67_108_864
            &&& detail == over
        },
        Err(_) => false,
    }
}

/// Whether an encoding outcome is owed to what a value was converted to.
pub open spec fn is_encoding(
    batch: Result<RecordBatch, UWireError>,
    outcome: Result<Seq<u8>, ErrorModel>,
) -> bool {
    match batch {
        Ok(built) => is_written(batch_model(built), outcome),
        Err(error) => outcome == Err::<Seq<u8>, ErrorModel>(error@),
    }
}

/// Whether an encoding outcome is owed to a value.
pub open spec fn is_value_encoding<T: ArrowWirePayload>(
    value: &T,
    outcome: Result<Seq<u8>, ErrorModel>,
) -> bool {
    exists|batch: Result<RecordBatch, UWireError>|
        #[trigger] call_ensures(T::to_record_batch, (value,), batch) && is_encoding(batch, outcome)
}

proof fn lemma_limit_text()
    ensures
        limit_text(MAX_ARROW_PAYLOAD_LEN)
            == "Io error: Arrow IPC payload exceeds the 67108864-byte limit"@,
{
    reveal_strlit("Io error: Arrow IPC payload exceeds the 67108864-byte limit");
    reveal_strlit("Io error: ");
    reveal_strlit("Arrow IPC payload exceeds the ");
    reveal_strlit("-byte limit");
    reveal_with_fuel(decimal, 9);
    assert(decimal(67_108_864) =~= seq!['6', '7', '1', '0', '8', '8', '6', '4']);
    assert(limit_text(MAX_ARROW_PAYLOAD_LEN)
        =~= "Io error: Arrow IPC payload exceeds the 67108864-byte limit"@);
}

proof fn lemma_encoding(
    batch: Result<RecordBatch, UWireError>,
    outcome: Result<Seq<u8>, ErrorModel>,
)
    requires
        batch_encodes(batch, outcome),
    ensures
        is_encoding(batch, outcome),
{
    lemma_limit_text();
}

proof fn lemma_value_encoding<T: ArrowWirePayload>(value: &T, outcome: Result<Seq<u8>, ErrorModel>)
    requires
        value_encodes(value, outcome),
    ensures
        is_value_encoding(value, outcome),
{
    let batch = choose|batch: Result<RecordBatch, UWireError>|
        #[trigger] call_ensures(T::to_record_batch, (value,), batch) && batch_encodes(
            batch,
            outcome,
        );
    lemma_encoding(batch, outcome);
}

/// Encoding a batch that Arrow has messages for gives the schema message, the messages of the
/// batch and the end-of-stream marker, exactly if together they take at most 64 MiB.
pub proof fn law_fitting_batch(
    batch: RecordBatch,
    schema: Seq<u8>,
    messages: Seq<u8>,
    encoded: Result<Vec<u8>, UWireError>,
)
    requires
        call_ensures(encode_batch, (&batch,), encoded),
        schema_message(batch_model(batch)) == Ok::<Seq<u8>, Seq<char>>(schema),
        batch_messages(batch_model(batch)) == Ok::<Seq<u8>, Seq<char>>(messages),
    ensures
        encoded is Ok <==> schema.len() + messages.len() + 8 <= 67_108_864,
        encoded matches Ok(bytes) ==> is_stream(bytes@, schema, messages),
        is_written(batch_model(batch), encoded_view(encoded)),
{
    lemma_encoding(Ok(batch), encoded_view(encoded));
}

/// Whatever a batch is encoded as, or refused for, is owed to it.
pub proof fn law_batch_encoding(batch: RecordBatch, encoded: Result<Vec<u8>, UWireError>)
    requires
        call_ensures(encode_batch, (&batch,), encoded),
    ensures
        match encoded {
            Ok(bytes) => is_written(batch_model(batch), Ok(bytes@)),
            Err(error) => is_written(batch_model(batch), Err(error@)),
        },
{
    lemma_encoding(Ok(batch), encoded_view(encoded));
}

/// Whatever a value is encoded as, or refused for, is owed to what it was converted to.
pub proof fn law_value_encoding<T: ArrowWirePayload>(
    value: &T,
    encoded: Result<Vec<u8>, UWireError>,
)
    requires
        call_ensures(encode_value::<T>, (value,), encoded),
    ensures
        match encoded {
            Ok(bytes) => is_value_encoding(value, Ok(bytes@)),
            Err(error) => is_value_encoding(value, Err(error@)),
        },
{
    lemma_value_encoding(value, encoded_view(encoded));
}

/// The owned encoding of a value is owed to what the value was converted to.
pub proof fn law_owned_encoding<T: ArrowWirePayload>(value: &T, encoded: Result<Bytes, UWireError>)
    requires
        call_ensures(ArrowWire::encode_payload_owned::<T>, (value,), encoded),
    ensures
        match encoded {
            Ok(bytes) => is_value_encoding(value, Ok(bytes_content(bytes))),
            Err(error) => is_value_encoding(value, Err(error@)),
        },
{
    lemma_value_encoding(value, owned_view(encoded));
}

/// The layout of a value has the length of its encoding and asks for no alignment, and where
/// there is no encoding there is no layout.
pub proof fn law_layout<T: ArrowWirePayload>(
    value: &T,
    layout: Result<PayloadLayout, UWireError>,
)
    requires
        call_ensures(ArrowWire::payload_layout::<T>, (value,), layout),
    ensures
        match layout {
            Ok(found) => exists|bytes: Seq<u8>| #[trigger]
                is_value_encoding(value, Ok(bytes)) && (forall|len: usize| #[trigger]
                    call_ensures(PayloadLayout::len, (&found,), len) ==> len == bytes.len()),
            Err(error) => is_value_encoding(value, Err(error@)),
        },
        layout matches Ok(found) ==> forall|align: usize| #[trigger]
            call_ensures(PayloadLayout::align, (&found,), align) ==> align == 1,
{
    let outcome = choose|outcome: Result<Seq<u8>, ErrorModel>| #[trigger]
        value_encodes(value, outcome) && layout_of_outcome(outcome, layout);
    lemma_value_encoding(value, outcome);
    if let Ok(found) = layout {
        let bytes = outcome->Ok_0;
        assert(is_value_encoding(value, Ok(bytes)));
    }
}

/// Whether bytes were put in the front of a destination, and nothing else in it changed.
pub open spec fn is_front(bytes: Seq<u8>, before: Seq<u8>, after: Seq<u8>) -> bool {
    &&& after.len() == before.len()
    &&& forall|i: int|
        0 <= i < after.len() ==> #[trigger] after[i] == if i < bytes.len() {
            bytes[i]
        } else {
            before[i]
        }
}

/// Whether an encoding outcome went into a destination: into its front if it fits, and
/// otherwise, or if there is none, not at all.
pub open spec fn is_delivered(
    outcome: Result<Seq<u8>, ErrorModel>,
    before: Seq<u8>,
    after: Seq<u8>,
    done: Result<(), UWireError>,
) -> bool {
    match done {
        Ok(_) => outcome matches Ok(bytes) && bytes.len() <= before.len() && is_front(
            bytes,
            before,
            after,
        ),
        Err(WireError::BufferTooSmall { expected, actual }) => after == before && match outcome {
            Ok(bytes) => actual == before.len() && expected == bytes.len() && expected > actual,
            Err(fault) => fault == (ErrorModel::BufferTooSmall { expected, actual }),
        },
        Err(error) => after == before && outcome == Err::<Seq<u8>, ErrorModel>(error@),
    }
}

proof fn lemma_delivered(
    outcome: Result<Seq<u8>, ErrorModel>,
    before: Seq<u8>,
    after: Seq<u8>,
    done: Result<(), UWireError>,
)
    requires
        placed(outcome, before, done, after),
        outcome matches Ok(bytes) ==> bytes.len() <= usize::MAX,
        before.len() <= usize::MAX,
    ensures
        is_delivered(outcome, before, after, done),
{
}

/// Encoding in place puts the encoding of the value in the front of the destination and leaves
/// the rest alone. A destination that is too small is left alone, and its length is given with
/// the length that was needed.
pub proof fn law_encoded_in_place<T: ArrowWirePayload>(value: &T)
    ensures
        forall|dst: &mut [u8], done: Result<(), UWireError>| #[trigger]
            call_ensures(ArrowWire::encode_payload::<T>, (value, dst), done) ==> exists|
                outcome: Result<Seq<u8>, ErrorModel>,
            | #[trigger]
                is_value_encoding(value, outcome) && is_delivered(
                    outcome,
                    dst@,
                    final(dst)@,
                    done,
                ),
{
    assert forall|dst: &mut [u8], done: Result<(), UWireError>| #[trigger]
        call_ensures(ArrowWire::encode_payload::<T>, (value, dst), done) implies exists|
            outcome: Result<Seq<u8>, ErrorModel>,
        | #[trigger]
            is_value_encoding(value, outcome) && is_delivered(outcome, dst@, final(dst)@, done) by {
        let outcome = choose|outcome: Result<Seq<u8>, ErrorModel>| #[trigger]
            value_encodes(value, outcome) && placed(
                outcome,
                dst@,
                done,
                final(dst)@,
            );
        lemma_value_encoding(value, outcome);
        assert(dst@.len() == dst.len());
        lemma_delivered(outcome, dst@, final(dst)@, done);
    }
}

/// Whether a batch has messages that take more than 64 MiB, with the end-of-stream marker.
pub open spec fn is_oversized(batch: BatchModel) -> bool {
    &&& schema_message(batch) matches Ok(schema)
    &&& schema.len() > 67_108_864 || (batch_messages(batch) matches Ok(messages) && schema.len()
        + messages.len() + 8 > 67_108_864)
}

/// A batch with a plain schema is refused only if its messages take more than 64 MiB.
pub proof fn law_refused_plain_batch(batch: RecordBatch, error: UWireError)
    requires
        is_plain_schema(batch_model(batch)),
        call_ensures(encode_batch, (&batch,), Err::<Vec<u8>, UWireError>(error)),
    ensures
        is_oversized(batch_model(batch)),
{
    lemma_plain_schema(batch_model(batch));
    lemma_encoding(Ok(batch), Err(error@));
}

/// A telemetry table is encoded as the stream of a batch with exactly its values in the required
/// columns. It is refused only if its columns differ in length, or its messages take more than
/// 64 MiB.
pub proof fn law_table_encoding(table: TelemetryTableV1, outcome: Result<Seq<u8>, ErrorModel>)
    requires
        value_encodes(&table, outcome),
    ensures
        if table.channel@.len() == table.timestamps_ns@.len() == table.value@.len() {
            exists|batch: RecordBatch|
                is_table_batch(#[trigger] batch_model(batch), table) && is_written(
                    batch_model(batch),
                    outcome,
                ) && (outcome is Ok || is_oversized(batch_model(batch)))
        } else {
            outcome == Err::<Seq<u8>, ErrorModel>(
                WireError::SerializationError {
                    step: EncodeStep::BuildTelemetry,
                    detail:
                        "Invalid argument error: all columns in a record batch must have the same length"@,
                },
            )
        },
{
    let batch = choose|batch: Result<RecordBatch, UWireError>|
        #[trigger] call_ensures(TelemetryTableV1::to_record_batch, (&table,), batch)
            && batch_encodes(batch, outcome);
    law_table_batch(table, batch);
    lemma_encoding(batch, outcome);
}

/// Whichever way a value is encoded to bytes, what comes out is an encoding of the value.
pub proof fn law_encoding_calls<T: ArrowWirePayload>(value: &T)
    ensures
        forall|encoded: Result<Vec<u8>, UWireError>| #[trigger]
            call_ensures(encode_value::<T>, (value,), encoded) ==> value_encodes(
                value,
                match encoded {
                    Ok(bytes) => Ok(bytes@),
                    Err(error) => Err(error@),
                },
            ),
        forall|encoded: Result<Bytes, UWireError>| #[trigger]
            call_ensures(ArrowWire::encode_payload_owned::<T>, (value,), encoded) ==> value_encodes(
                value,
                match encoded {
                    Ok(bytes) => Ok(bytes_content(bytes)),
                    Err(error) => Err(error@),
                },
            ),
        forall|encoded: Result<Bytes, UWireError>| #[trigger]
            call_ensures(ArrowWire::try_encode_payload_owned::<T>, (value,), Some(encoded))
                ==> value_encodes(
                value,
                match encoded {
                    Ok(bytes) => Ok(bytes_content(bytes)),
                    Err(error) => Err(error@),
                },
            ),
{
    assert forall|encoded: Result<Vec<u8>, UWireError>| #[trigger]
        call_ensures(encode_value::<T>, (value,), encoded) implies value_encodes(
        value,
        match encoded {
            Ok(bytes) => Ok(bytes@),
            Err(error) => Err(error@),
        },
    ) by {
        assert(value_encodes(value, encoded_view(encoded)));
    }
    assert forall|encoded: Result<Bytes, UWireError>| #[trigger]
        call_ensures(ArrowWire::encode_payload_owned::<T>, (value,), encoded) implies value_encodes(
        value,
        match encoded {
            Ok(bytes) => Ok(bytes_content(bytes)),
            Err(error) => Err(error@),
        },
    ) by {
        assert(value_encodes(value, owned_view(encoded)));
    }
    assert forall|encoded: Result<Bytes, UWireError>| #[trigger]
        call_ensures(
            ArrowWire::try_encode_payload_owned::<T>,
            (value,),
            Some(encoded),
        ) implies value_encodes(
        value,
        match encoded {
            Ok(bytes) => Ok(bytes_content(bytes)),
            Err(error) => Err(error@),
        },
    ) by {
        assert(value_tries(value, Some(owned_view(encoded))));
    }
}

/// Whether the outcome of trying to encode a value is owed to it: an encoding of a batch with a
/// plain schema, which fails only for its size, or the error of the conversion, and nothing for
/// a batch with another schema.
pub open spec fn is_tried<T: ArrowWirePayload>(
    value: &T,
    outcome: Option<Result<Seq<u8>, ErrorModel>>,
) -> bool {
    exists|batch: Result<RecordBatch, UWireError>|
        #[trigger] call_ensures(T::to_record_batch, (value,), batch) && match outcome {
            None => batch matches Ok(built) && !is_plain_schema(batch_model(built)),
            Some(encoded) => is_encoding(batch, encoded) && (batch matches Ok(built)
                ==> is_plain_schema(batch_model(built)) && (encoded is Ok || is_oversized(
                batch_model(built),
            ))),
        }
}

proof fn lemma_tried<T: ArrowWirePayload>(
    value: &T,
    outcome: Option<Result<Seq<u8>, ErrorModel>>,
)
    requires
        value_tries(value, outcome),
    ensures
        is_tried(value, outcome),
{
    let batch = choose|batch: Result<RecordBatch, UWireError>| #[trigger]
        call_ensures(T::to_record_batch, (value,), batch) && match outcome {
            Some(encoded) => batch_encodes(batch, encoded) && (batch matches Ok(built)
                ==> plain_schema(batch_model(built))),
            None => batch matches Ok(built) && !plain_schema(batch_model(built)),
        };
    if let Ok(built) = batch {
        lemma_plain_schema(batch_model(built));
    }
    if let Some(encoded) = outcome {
        lemma_encoding(batch, encoded);
    }
}

/// Trying to encode a batch comes to something exactly if the batch has a plain schema, and then
/// to what encoding it comes to.
pub proof fn law_tried_batch(batch: RecordBatch, tried: Option<Result<Vec<u8>, UWireError>>)
    requires
        call_ensures(try_encode_batch, (&batch,), tried),
    ensures
        tried is Some <==> is_plain_schema(batch_model(batch)),
        tried matches Some(Ok(bytes)) ==> is_written(batch_model(batch), Ok(bytes@)),
        tried matches Some(Err(error)) ==> is_written(batch_model(batch), Err(error@))
            && is_oversized(batch_model(batch)),
{
    lemma_plain_schema(batch_model(batch));
    if let Some(encoded) = tried {
        lemma_encoding(Ok(batch), encoded_view(encoded));
    }
}

/// Trying to encode a value, to bytes of either kind, comes to what is owed to it.
pub proof fn law_tried_encoding<T: ArrowWirePayload>(value: &T)
    ensures
        forall|tried: Option<Result<Vec<u8>, UWireError>>| #[trigger]
            call_ensures(try_encode_value::<T>, (value,), tried) ==> is_tried(
                value,
                match tried {
                    Some(Ok(bytes)) => Some(Ok(bytes@)),
                    Some(Err(error)) => Some(Err(error@)),
                    None => None,
                },
            ),
        forall|tried: Option<Result<Bytes, UWireError>>| #[trigger]
            call_ensures(ArrowWire::try_encode_payload_owned::<T>, (value,), tried) ==> is_tried(
                value,
                match tried {
                    Some(Ok(bytes)) => Some(Ok(bytes_content(bytes))),
                    Some(Err(error)) => Some(Err(error@)),
                    None => None,
                },
            ),
{
    assert forall|tried: Option<Result<Vec<u8>, UWireError>>| #[trigger]
        call_ensures(try_encode_value::<T>, (value,), tried) implies is_tried(
        value,
        match tried {
            Some(Ok(bytes)) => Some(Ok(bytes@)),
            Some(Err(error)) => Some(Err(error@)),
            None => None,
        },
    ) by {
        lemma_tried(value, tried_view(tried));
    }
    assert forall|tried: Option<Result<Bytes, UWireError>>| #[trigger]
        call_ensures(ArrowWire::try_encode_payload_owned::<T>, (value,), tried) implies is_tried(
        value,
        match tried {
            Some(Ok(bytes)) => Some(Ok(bytes_content(bytes))),
            Some(Err(error)) => Some(Err(error@)),
            None => None,
        },
    ) by {
        let outcome = match tried {
            Some(owned) => Some(owned_view(owned)),
            None => None,
        };
        assert(value_tries(value, outcome));
        lemma_tried(value, outcome);
    }
}

/// Trying to find the layout of a value gives the length of what trying to encode it comes to,
/// and no alignment.
pub proof fn law_tried_layout<T: ArrowWirePayload>(
    value: &T,
    layout: Option<Result<PayloadLayout, UWireError>>,
)
    requires
        call_ensures(ArrowWire::try_payload_layout::<T>, (value,), layout),
    ensures
        match layout {
            Some(Ok(found)) => exists|bytes: Seq<u8>| #[trigger]
                is_tried(value, Some(Ok(bytes))) && (forall|len: usize| #[trigger]
                    call_ensures(PayloadLayout::len, (&found,), len) ==> len == bytes.len()),
            Some(Err(error)) => is_tried(value, Some(Err(error@))),
            None => is_tried(value, None),
        },
        layout matches Some(Ok(found)) ==> forall|align: usize| #[trigger]
            call_ensures(PayloadLayout::align, (&found,), align) ==> align == 1,
{
    let outcome = choose|outcome: Option<Result<Seq<u8>, ErrorModel>>| #[trigger]
        value_tries(value, outcome) && match layout {
            Some(found) => outcome matches Some(encoded) && layout_of_outcome(encoded, found),
            None => outcome is None,
        };
    lemma_tried(value, outcome);
    if let Some(Ok(found)) = layout {
        let bytes = outcome->Some_0->Ok_0;
        assert(is_tried(value, Some(Ok(bytes))));
    }
}

/// Trying to encode in place delivers what trying to encode the value comes to, and leaves the
/// destination alone where that is nothing.
pub proof fn law_tried_in_place<T: ArrowWirePayload>(value: &T)
    ensures
        forall|dst: &mut [u8], done: Option<Result<(), UWireError>>| #[trigger]
            call_ensures(ArrowWire::try_encode_payload::<T>, (value, dst), done) ==> match done {
                Some(written) => exists|outcome: Result<Seq<u8>, ErrorModel>|
                    is_tried(value, Some(outcome)) && #[trigger] is_delivered(
                        outcome,
                        dst@,
                        final(dst)@,
                        written,
                    ),
                None => is_tried(value, None) && final(dst)@ == dst@,
            },
{
    assert forall|dst: &mut [u8], done: Option<Result<(), UWireError>>| #[trigger]
        call_ensures(ArrowWire::try_encode_payload::<T>, (value, dst), done) implies match done {
        Some(written) => exists|outcome: Result<Seq<u8>, ErrorModel>|
            is_tried(value, Some(outcome)) && #[trigger] is_delivered(
                outcome,
                dst@,
                final(dst)@,
                written,
            ),
        None => is_tried(value, None) && final(dst)@ == dst@,
    } by {
        let outcome = choose|outcome: Option<Result<Seq<u8>, ErrorModel>>| #[trigger]
            value_tries(value, outcome) && match done {
                Some(written) => outcome matches Some(encoded) && placed(
                    encoded,
                    dst@,
                    written,
                    final(dst)@,
                ),
                None => outcome is None && final(dst)@ == dst@,
            };
        lemma_tried(value, outcome);
        assert(dst@.len() == dst.len());
        if let Some(written) = done {
            lemma_delivered(outcome->Some_0, dst@, final(dst)@, written);
        }
    }
}

/// Trying to encode a telemetry table always comes to something.
pub proof fn law_tried_table(table: TelemetryTableV1)
    ensures
        !is_tried(&table, None),
{
    if is_tried(&table, None) {
        let batch = choose|batch: Result<RecordBatch, UWireError>| #[trigger]
            call_ensures(TelemetryTableV1::to_record_batch, (&table,), batch) && (batch matches Ok(
                built,
            ) && !is_plain_schema(batch_model(built)));
        lemma_plain_schema(batch_model(batch->Ok_0));
    }
}

/// A payload over 64 MiB is refused with its length. One that is not a well-formed stream is
/// refused with the fault of its framing. One that Arrow cannot open, or has no batch of, or an
/// error, or a second item, is refused for that.
pub proof fn law_refused_payload<T: ArrowWirePayload>(
    src: Seq<u8>,
    decoded: Result<T, UWireError>,
)
    requires
        src.len() <= usize::MAX,
        payload_decodes(src, decoded),
    ensures
        src.len() > 67_108_864 ==> decoded == Err::<T, UWireError>(
            WireError::InvalidPayload(PayloadFault::TooLong(src.len() as usize)),
        ),
        src.len() <= 67_108_864 && !well_formed(src) ==> (decoded matches Err(error) && (
        error@ matches WireError::InvalidPayload(fault) && envelope(src) == Err::<
            StreamSite,
            FaultModel,
        >(fault))),
        src.len() <= 67_108_864 && well_formed(src) ==> match stream_opening(src) {
            Err(detail) => decoded matches Err(error) && error@ == WireError::InvalidPayload(
                FaultModel::Open(detail),
            ),
            Ok(_) => {
                let items = stream_items(src);
                &&& items.len() == 0 ==> decoded == Err::<T, UWireError>(
                    WireError::InvalidPayload(PayloadFault::NoBatch),
                )
                &&& items.len() > 0 ==> (items[0] matches Err(detail) ==> (decoded matches Err(
                    error,
                ) && error@ == WireError::InvalidPayload(FaultModel::Decode(detail))))
                &&& items.len() > 1 && items[0] is Ok ==> decoded == Err::<T, UWireError>(
                    WireError::InvalidPayload(PayloadFault::ManyBatches),
                )
            },
        },
{
    law_well_formed(src);
}

/// A well-formed payload of at most 64 MiB in which Arrow finds one batch and nothing else is
/// decoded, to what the conversion of that batch gives.
pub proof fn law_decoded_payload<T: ArrowWirePayload>(
    src: Seq<u8>,
    batch: BatchModel,
    decoded: Result<T, UWireError>,
)
    requires
        src.len() <= 67_108_864,
        well_formed(src),
        stream_opening(src) is Ok,
        stream_items(src) == seq![Ok::<BatchModel, Seq<char>>(batch)],
        payload_decodes(src, decoded),
    ensures
        exists|found: RecordBatch|
            batch_model(found) == batch && #[trigger] call_ensures(
                T::from_record_batch,
                (found,),
                decoded,
            ),
{
    law_well_formed(src);
}

/// A telemetry table is decoded only from a well-formed payload of at most 64 MiB with one
/// batch, and it is made of the values of that batch's required columns.
pub proof fn law_table_decoded(src: Seq<u8>, table: TelemetryTableV1)
    requires
        src.len() <= usize::MAX,
        payload_decodes(src, Ok::<TelemetryTableV1, UWireError>(table)),
    ensures
        src.len() <= 67_108_864,
        well_formed(src),
        stream_opening(src) is Ok,
        stream_items(src).len() == 1,
        stream_items(src)[0] matches Ok(batch) && gives_table(batch.columns, table),
        table.channel@.len() == table.timestamps_ns@.len() == table.value@.len(),
{
    law_well_formed(src);
    let items = stream_items(src);
    assert(items.len() == 1 && items[0] is Ok);
    let batch = items[0]->Ok_0;
    let found = choose|found: RecordBatch|
        batch_model(found) == batch && #[trigger] call_ensures(
            TelemetryTableV1::from_record_batch,
            (found,),
            Ok::<TelemetryTableV1, UWireError>(table),
        );
    law_table_read(found, Ok(table));
}

proof fn lemma_framing_fault(src: Seq<u8>)
    ensures
        envelope(src) matches Err(fault) ==> !(fault is TooLong) && !(fault is Column),
{
    lemma_message_fault(src, 0);
}

proof fn lemma_message_fault(src: Seq<u8>, from: int)
    ensures
        sites_from(src, from) matches Err(fault) ==> !(fault is TooLong) && !(fault is Column),
    decreases src.len() - from,
{
    if let Ok(Prefix::Message { start, end }) = prefix_at(src, from) {
        if let Ok(step) = step_over(src.len(), end, message_info(src.subrange(start, end))) {
            lemma_message_fault(src, step.next);
        }
    }
}

/// A telemetry payload that is refused is refused as too long exactly if it is over 64 MiB, and for
/// a column exactly if it is well-formed and Arrow finds one batch in it that gives no table.
pub proof fn law_table_refusal(src: Seq<u8>, error: UWireError)
    requires
        src.len() <= usize::MAX,
        payload_decodes(src, Err::<TelemetryTableV1, UWireError>(error)),
    ensures
        error is InvalidPayload,
        error->InvalidPayload_0 is TooLong <==> src.len() > 67_108_864,
        error->InvalidPayload_0 is Column <==> src.len() <= 67_108_864 && well_formed(src)
            && stream_opening(src) is Ok && stream_items(src).len() == 1 && (
        stream_items(src)[0] matches Ok(batch) && forall|table: TelemetryTableV1| !#[trigger]
            gives_table(batch.columns, table)),
{
    law_well_formed(src);
    lemma_framing_fault(src);
    let items = stream_items(src);
    if src.len() <= 67_108_864 && well_formed(src) && stream_opening(src) is Ok && items.len() == 1
        && items[0] is Ok {
        let found = choose|found: RecordBatch|
            batch_model(found) == items[0]->Ok_0 && #[trigger] call_ensures(
                TelemetryTableV1::from_record_batch,
                (found,),
                Err::<TelemetryTableV1, UWireError>(error),
            );
        law_table_read(found, Err(error));
        law_table_refused(found, error);
    }
}

/// Whichever way a payload is decoded from its bytes, what comes out is a decoding of those
/// bytes.
pub proof fn law_decoding_calls<T: ArrowWirePayload>(src: &[u8])
    ensures
        forall|decoded: Result<T, UWireError>| #[trigger]
            call_ensures(decode_value::<T>, (src,), decoded) ==> payload_decodes(src@, decoded),
        forall|decoded: Result<T, UWireError>| #[trigger]
            call_ensures(ArrowWire::decode_payload::<T>, (src,), decoded) ==> payload_decodes(
                src@,
                decoded,
            ),
        forall|decoded: Result<T, UWireError>| #[trigger]
            call_ensures(ArrowWire::try_decode_payload::<T>, (src,), Some(decoded))
                ==> payload_decodes(src@, decoded),
{
}

/// What decoding from a reader can come to, where the reader gave as many bytes as were declared,
/// is exactly what decoding those bytes can come to.
pub proof fn law_read_payload<T: ArrowWirePayload>(
    bytes: Vec<u8>,
    decoded: Result<T, UWireError>,
)
    ensures
        read_decodes(bytes@.len() as usize, ReadOutcome::Filled(bytes), decoded)
            <==> payload_decodes(bytes@, decoded),
        call_ensures(
            ArrowWire::decode_payload_from_reader::<T>,
            (bytes@.len() as usize, ReadOutcome::Filled(bytes)),
            decoded,
        ) ==> payload_decodes(bytes@, decoded),
        call_ensures(
            ArrowWire::try_decode_payload_from_reader::<T>,
            (bytes@.len() as usize, ReadOutcome::Filled(bytes)),
            Some(decoded),
        ) ==> payload_decodes(bytes@, decoded),
{
    assert(bytes@.len() == bytes.len());
}

/// Whether decoding from a reader is refused for the declared length or for what was read: the
/// length if it is over 64 MiB, whatever was read; too few bytes, with the reader's reason or
/// the one that reading to the end of a buffer has for it; too many bytes.
pub open spec fn is_read_refused(
    payload_len: usize,
    read: ReadOutcome,
    fault: PayloadFault<Seq<char>>,
) -> bool {
    match fault {
        PayloadFault::TooLong(len) => payload_len > 67_108_864 && len == payload_len,
        PayloadFault::ShortRead { declared, detail } => payload_len <= 67_108_864 && declared
            == payload_len && match read {
            ReadOutcome::Filled(bytes) => bytes@.len() < payload_len && detail
                == "failed to fill whole buffer"@,
            ReadOutcome::Short(reason) => detail == reason@,
            ReadOutcome::Long => false,
        },
        PayloadFault::LongRead(declared) => payload_len <= 67_108_864 && declared == payload_len
            && match read {
            ReadOutcome::Filled(bytes) => bytes@.len() > payload_len,
            ReadOutcome::Short(_) => false,
            ReadOutcome::Long => true,
        },
        _ => false,
    }
}

/// Decoding from a reader that did not give exactly the declared bytes, or for which more than
/// 64 MiB were declared, is refused for that.
pub proof fn law_refused_reader<T: ArrowWirePayload>(
    payload_len: usize,
    read: ReadOutcome,
    decoded: Result<T, UWireError>,
)
    requires
        read matches ReadOutcome::Filled(bytes) ==> payload_len > 67_108_864 || bytes@.len()
            != payload_len,
        call_ensures(
            ArrowWire::decode_payload_from_reader::<T>,
            (payload_len, read),
            decoded,
        ) || call_ensures(
            ArrowWire::try_decode_payload_from_reader::<T>,
            (payload_len, read),
            Some(decoded),
        ),
    ensures
        decoded matches Err(error) && (error@ matches WireError::InvalidPayload(fault)
            && is_read_refused(payload_len, read, fault)),
{
    assert(read_decodes(payload_len, read, decoded));
}

/// What an encoded telemetry table decodes to, from its bytes or from a reader that gave them,
/// has the same timestamps, channels and values.
pub proof fn law_table_round_trip(
    table: TelemetryTableV1,
    bytes: Vec<u8>,
    decoded: Result<TelemetryTableV1, UWireError>,
)
    requires
        value_encodes(&table, Ok(bytes@)),
        payload_decodes(bytes@, decoded) || read_decodes(
            bytes@.len() as usize,
            ReadOutcome::Filled(bytes),
            decoded,
        ),
    ensures
        decoded matches Ok(found) && found.timestamps_ns@ == table.timestamps_ns@
            && found.channel@ == table.channel@ && found.value@ == table.value@,
{
    law_read_payload(bytes, decoded);
    law_round_trip(table, bytes@, decoded);
}

/// A telemetry table can be encoded, and what it is encoded as can be decoded, from its bytes and
/// from a reader, whether or not that is only tried.
pub proof fn law_table_accepted(table: TelemetryTableV1, bytes: Vec<u8>, src: &[u8])
    requires
        value_encodes(&table, Ok(bytes@)),
        src@ == bytes@,
    ensures
        call_requires(ArrowWire::encode_payload_owned::<TelemetryTableV1>, (&table,)),
        call_requires(ArrowWire::payload_layout::<TelemetryTableV1>, (&table,)),
        call_requires(ArrowWire::decode_payload::<TelemetryTableV1>, (src,)),
        call_requires(
            ArrowWire::decode_payload_from_reader::<TelemetryTableV1>,
            (bytes@.len() as usize, ReadOutcome::Filled(bytes)),
        ),
        !call_ensures(ArrowWire::try_decode_payload::<TelemetryTableV1>, (src,), None),
        !call_ensures(
            ArrowWire::try_decode_payload_from_reader::<TelemetryTableV1>,
            (bytes@.len() as usize, ReadOutcome::Filled(bytes)),
            None,
        ),
{
    assert(bytes@.len() == bytes.len());
    law_telemetry_encodable(table);
    assert(exists|batch: Result<RecordBatch, UWireError>|
        #[trigger] call_ensures(TelemetryTableV1::to_record_batch, (&table,), batch)
            && batch_encodes(batch, Ok(bytes@)));
    law_telemetry_encoding(table, Ok(bytes@));
}

/// Every payload over 64 MiB, and every one that is not a well-formed stream, may be handed to
/// decoding, and so may every outcome of a reader that did not give exactly the declared bytes.
pub proof fn law_refusable<T: ArrowWirePayload>(src: &[u8], payload_len: usize, read: ReadOutcome)
    ensures
        src@.len() > 67_108_864 || !well_formed(src@) ==> call_requires(
            ArrowWire::decode_payload::<T>,
            (src,),
        ),
        payload_len > 67_108_864 || !(read matches ReadOutcome::Filled(bytes) && bytes@.len()
            == payload_len && well_formed(bytes@)) ==> call_requires(
            ArrowWire::decode_payload_from_reader::<T>,
            (payload_len, read),
        ),
{
    assert(src@.len() == src.len());
    law_well_formed(src@);
    if let ReadOutcome::Filled(bytes) = read {
        assert(bytes@.len() == bytes.len());
        law_well_formed(bytes@);
    }
}

/// The only batch of a stream is the first item, if that is a batch and no other follows.
pub proof fn law_only_batch(
    first: Option<Result<RecordBatch, String>>,
    another: bool,
    batch: Result<RecordBatch, UWireError>,
)
    requires
        call_ensures(only_batch, (first, another), batch),
    ensures
        batch matches Ok(item) ==> first == Some(Ok::<RecordBatch, String>(item)) && !another,
        batch matches Err(error) ==> (error@ matches WireError::InvalidPayload(fault)
            && match fault {
            PayloadFault::NoBatch => first is None,
            PayloadFault::Decode(detail) => first matches Some(Err(reason)) && reason@ == detail,
            PayloadFault::ManyBatches => first is Some && first->Some_0 is Ok && another,
            _ => false,
        }),
{
}

/// A telemetry table with columns of the same length is encoded exactly if the messages of its
/// batch and the end-of-stream marker take at most 64 MiB together, and then as those.
pub proof fn law_fitting_table(
    table: TelemetryTableV1,
    batch: BatchModel,
    schema: Seq<u8>,
    messages: Seq<u8>,
    outcome: Result<Seq<u8>, ErrorModel>,
)
    requires
        table.channel@.len() == table.timestamps_ns@.len() == table.value@.len(),
        is_table_batch(batch, table),
        schema_message(batch) == Ok::<Seq<u8>, Seq<char>>(schema),
        batch_messages(batch) == Ok::<Seq<u8>, Seq<char>>(messages),
        value_encodes(&table, outcome),
    ensures
        outcome is Ok <==> schema.len() + messages.len() + 8 <= 67_108_864,
        outcome matches Ok(bytes) ==> bytes == schema + messages + seq![
            255u8,
            255u8,
            255u8,
            255u8,
            0u8,
            0u8,
            0u8,
            0u8,
        ],
{
    law_table_encoding(table, outcome);
    let found = choose|found: RecordBatch|
        is_table_batch(#[trigger] batch_model(found), table) && is_written(
            batch_model(found),
            outcome,
        ) && (outcome is Ok || is_oversized(batch_model(found)));
    law_one_batch(table, batch, batch_model(found));
}

/// A value may be encoded if writing returns for whatever it is converted to, and so may one that
/// is converted to batches with plain schemas only.
pub proof fn law_may_encode<T: ArrowWirePayload>(value: &T)
    requires
        forall|batch: RecordBatch| #[trigger]
            call_ensures(T::to_record_batch, (value,), Ok::<RecordBatch, UWireError>(batch))
                ==> is_plain_schema(batch_model(batch)) || writing_returns(
                batch_model(batch),
                67_108_864,
            ),
    ensures
        call_requires(ArrowWire::encode_payload_owned::<T>, (value,)),
        call_requires(ArrowWire::payload_layout::<T>, (value,)),
        forall|dst: &mut [u8]| #[trigger]
            call_requires(ArrowWire::encode_payload::<T>, (value, dst)),
{
    assert forall|batch: RecordBatch| #[trigger]
        call_ensures(
            T::to_record_batch,
            (value,),
            Ok::<RecordBatch, UWireError>(batch),
        ) implies writes(
        batch_model(batch),
        MAX_ARROW_PAYLOAD_LEN,
    ) by {
        lemma_plain_schema(batch_model(batch));
    }
    assert(encodable(value));
}

/// A payload may be decoded if opening and reading its stream return, and a failed opening is
/// enough.
pub proof fn law_may_decode<T: ArrowWirePayload>(src: &[u8])
    requires
        opening_returns(src@),
        stream_opening(src@) is Err || reading_returns(src@),
    ensures
        call_requires(ArrowWire::decode_payload::<T>, (src,)),
{
}

} // verus!

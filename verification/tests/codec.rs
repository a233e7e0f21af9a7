//! Streams taken apart and put together again: framing, limits, column policy, texts.
use std::collections::HashMap;
use std::io::Write;
use std::sync::Arc;

use arrow_array::types::{Int8Type, UInt64Type};
use arrow_array::{
    Array, ArrayRef, BinaryArray, BooleanArray, DictionaryArray, FixedSizeBinaryArray, Float64Array,
    Int8Array, LargeStringArray, ListArray, StringArray, UInt32Array, UInt64Array,
};
use arrow_ipc::convert::IpcSchemaEncoder;
use arrow_ipc::writer::StreamWriter;
use arrow_ipc::{
    BodyCompressionBuilder, FieldBuilder, MessageBuilder, MessageHeader, MetadataVersion,
    NullBuilder, RecordBatchBuilder, SchemaBuilder, Type, UnionBuilder,
};
use arrow_schema::{DataType, Field, Schema};
use up_wire_arrow::batch::{check_schema, PLAIN_COLUMN_LIMIT, PLAIN_NAME_LIMIT};
use up_wire_arrow::bounded::WriteFault;
use up_wire_arrow::envelope::{
    accept_message, checked_add, ensure_payload_limit, find_contents, find_stream, read_prefix,
    read_site, read_u32, validate_ipc_envelope, FoundBatch, FoundSite, FoundStream,
};
use up_wire_arrow::error::{ColumnFault, EncodeStep, Span, TelemetryColumn};
use up_wire_arrow::half::half_bits;
use up_wire_arrow::message::{
    BatchHeader, BufferSpan, IpcMessage, SchemaField, DICTIONARY_HEADER, RECORD_BATCH_HEADER,
    SCHEMA_HEADER,
};
use up_wire_arrow::stream::{
    check_fields, check_offsets, check_stream, layout_of, ColumnLayout, BINARY_TAG, BOOL_TAG,
    DURATION_TAG, FLOATING_POINT_TAG, INTERVAL_TAG, INT_TAG, LARGE_BINARY_TAG, LARGE_UTF8_TAG,
    UTF8_TAG,
};
use up_wire_arrow::telemetry::required_column;
use up_wire_arrow::text::decimal_text;
use up_wire_arrow::wire::{
    decode_value, encode_batch, encode_value, only_batch, try_encode_batch, try_encode_value,
};
use up_wire_arrow::{
    ArrowWire, ArrowWirePayload, BoundedWriter, PayloadFault, ReadOutcome, RecordBatch,
    TelemetryTableV1, UWireError, ARROW_CONTENT_TYPE, ARROW_ENCODING_ID, MAX_ARROW_PAYLOAD_LEN,
};

const IPC_EOS: [u8; 8] = [0xFF, 0xFF, 0xFF, 0xFF, 0, 0, 0, 0];

/// A payload of one `UInt64` column under a name of its own.
#[derive(Debug, PartialEq)]
struct Series {
    name: String,
    points: Vec<u64>,
}

impl ArrowWirePayload for Series {
    fn to_record_batch(&self) -> Result<RecordBatch, UWireError> {
        if self.name.is_empty() {
            return Err(UWireError::SerializationError {
                step: EncodeStep::Other,
                detail: "a series needs a name".to_string(),
            });
        }
        Ok(batch(vec![(
            self.name.as_str(),
            Arc::new(UInt64Array::from(self.points.clone())),
        )]))
    }

    fn from_record_batch(batch: RecordBatch) -> Result<Self, UWireError> {
        let schema = batch.0.schema();
        if schema.fields().len() != 1 {
            return Err(UWireError::InvalidPayload(PayloadFault::Other(
                "a series has one column".to_string(),
            )));
        }
        let points = batch.0.column(0).as_any().downcast_ref::<UInt64Array>();
        Ok(Series {
            name: schema.field(0).name().clone(),
            points: points.expect("points").values().to_vec(),
        })
    }
}

fn series(name: &str, points: Vec<u64>) -> Series {
    Series {
        name: name.to_string(),
        points,
    }
}

fn batch(columns: Vec<(&str, ArrayRef)>) -> RecordBatch {
    let fields: Vec<Field> = columns
        .iter()
        .map(|(name, array)| Field::new(*name, array.data_type().clone(), false))
        .collect();
    let arrays = columns.into_iter().map(|(_, array)| array).collect();
    RecordBatch(
        arrow_array::RecordBatch::try_new(Arc::new(Schema::new(fields)), arrays).expect("batch"),
    )
}

fn telemetry_columns() -> Vec<(&'static str, ArrayRef)> {
    vec![
        ("timestamps_ns", Arc::new(UInt64Array::from(vec![10, 20])) as ArrayRef),
        ("channel", Arc::new(UInt32Array::from(vec![3, 4])) as ArrayRef),
        ("value", Arc::new(Float64Array::from(vec![1.5, -2.5])) as ArrayRef),
    ]
}

fn telemetry() -> TelemetryTableV1 {
    TelemetryTableV1 {
        timestamps_ns: vec![10, 20],
        channel: vec![3, 4],
        value: vec![1.5_f64.to_bits(), (-2.5_f64).to_bits()],
    }
}

fn stream(batches: &[&RecordBatch], schema: &Schema) -> Vec<u8> {
    let mut bytes = Vec::new();
    let mut writer = StreamWriter::try_new(&mut bytes, schema).expect("create stream");
    for batch in batches {
        writer.write(&batch.0).expect("write batch");
    }
    writer.finish().expect("finish stream");
    bytes
}

fn stream_of(batch: &RecordBatch) -> Vec<u8> {
    stream(&[batch], &batch.0.schema())
}

/// The length of the message at the front of a stream.
fn frame_len(bytes: &[u8], body: usize) -> usize {
    assert_eq!(&bytes[..4], &[0xFF; 4]);
    8 + u32::from_le_bytes(bytes[4..8].try_into().expect("length")) as usize + body
}

fn decode(bytes: &[u8]) -> Result<TelemetryTableV1, UWireError> {
    ArrowWire::decode_payload(bytes)
}

fn fault<T: std::fmt::Debug>(result: Result<T, UWireError>) -> PayloadFault<String> {
    match result {
        Err(UWireError::InvalidPayload(fault)) => fault,
        other => panic!("not an invalid payload: {other:?}"),
    }
}

fn fields(tags: &[u8]) -> Vec<SchemaField> {
    tags.iter()
        .map(|tag| SchemaField {
            type_tag: *tag,
            dictionary: false,
        })
        .collect()
}

fn found(body_length: i64, spans: &[(i64, i64)]) -> FoundBatch {
    FoundBatch {
        body_length,
        buffers: spans
            .iter()
            .map(|(offset, length)| BufferSpan {
                offset: *offset,
                length: *length,
            })
            .collect(),
    }
}

fn message(header: u8, body_length: i64, batch: Option<bool>) -> IpcMessage {
    IpcMessage {
        header,
        body_length,
        batch: batch.map(|compressed| BatchHeader {
            compressed,
            buffers: vec![BufferSpan {
                offset: 0,
                length: 8,
            }],
        }),
        schema: None,
    }
}

#[test]
fn numbers_are_little_endian_and_bounded() {
    let bytes = [0x01, 0x02, 0x03, 0x84, 0xFF];
    assert_eq!(read_u32(&bytes, 0, Span::MessagePrefix), Ok(0x8403_0201));
    assert_eq!(read_u32(&bytes, 1, Span::MessagePrefix), Ok(0xFF84_0302));
    assert_eq!(
        fault(read_u32(&bytes, 2, Span::ContinuationLength)),
        PayloadFault::Truncated(Span::ContinuationLength)
    );
    assert_eq!(
        fault(read_u32(&bytes, usize::MAX, Span::MessagePrefix)),
        PayloadFault::Overflow(Span::MessagePrefix)
    );
}

#[test]
fn sums_of_offsets_are_checked() {
    assert_eq!(checked_add(40, 2, Span::MetadataLength), Ok(42));
    assert_eq!(
        checked_add(usize::MAX, 0, Span::MetadataLength),
        Ok(usize::MAX)
    );
    let error = checked_add(usize::MAX, 1, Span::MetadataLength).expect_err("overflow");
    assert_eq!(
        error.message().as_deref(),
        Some("Arrow IPC metadata length overflow")
    );
}

#[test]
fn limit_is_inclusive() {
    assert_eq!(ensure_payload_limit(MAX_ARROW_PAYLOAD_LEN), Ok(()));
    let error = ensure_payload_limit(MAX_ARROW_PAYLOAD_LEN + 1).expect_err("too long");
    assert_eq!(
        error.message().as_deref(),
        Some("Arrow IPC payload length 67108865 exceeds the 67108864-byte limit")
    );
}

#[test]
fn oversized_payload_is_refused_for_its_length() {
    let bytes = vec![0_u8; MAX_ARROW_PAYLOAD_LEN + 1];
    assert_eq!(
        fault(decode(&bytes)),
        PayloadFault::TooLong(MAX_ARROW_PAYLOAD_LEN + 1)
    );
    let read = ArrowWire::decode_payload_from_reader::<TelemetryTableV1>(
        MAX_ARROW_PAYLOAD_LEN + 1,
        ReadOutcome::Long,
    );
    assert_eq!(
        fault(read),
        PayloadFault::TooLong(MAX_ARROW_PAYLOAD_LEN + 1)
    );
}

#[test]
fn prefixes_tell_messages_from_the_end() {
    assert_eq!(read_prefix(&IPC_EOS, 0), Ok(None));
    let marked = [0xFF, 0xFF, 0xFF, 0xFF, 2, 0, 0, 0, 7, 7];
    assert_eq!(read_prefix(&marked, 0), Ok(Some((8, 10))));
    let bare = [2, 0, 0, 0, 7, 7];
    assert_eq!(read_prefix(&bare, 0), Ok(Some((4, 6))));
    assert_eq!(
        fault(read_prefix(&bare[..5], 0)),
        PayloadFault::TruncatedMetadata
    );
    assert_eq!(
        fault(read_prefix(&[0, 0, 0, 0], 0)),
        PayloadFault::ShortEndMarker
    );
    assert_eq!(
        fault(read_prefix(&IPC_EOS[..3], 0)),
        PayloadFault::Truncated(Span::MessagePrefix)
    );
    assert_eq!(
        fault(read_prefix(&IPC_EOS[..7], 0)),
        PayloadFault::Truncated(Span::ContinuationLength)
    );
}

#[test]
fn messages_are_accepted_by_their_metadata() {
    let mut schema = message(SCHEMA_HEADER, 0, None);
    schema.schema = Some(fields(&[INT_TAG]));
    assert_eq!(
        accept_message(100, 40, Ok(schema)),
        Ok((40, FoundSite::Schema(fields(&[INT_TAG]))))
    );
    let batch = message(RECORD_BATCH_HEADER, 60, Some(false));
    assert_eq!(
        accept_message(100, 40, Ok(batch)),
        Ok((100, FoundSite::Batch(found(60, &[(0, 8)]))))
    );
    let dictionary = message(DICTIONARY_HEADER, 8, None);
    assert_eq!(
        accept_message(100, 40, Ok(dictionary)),
        Ok((48, FoundSite::Other))
    );

    let refused = |message: IpcMessage, end: usize| fault(accept_message(100, end, Ok(message)));
    let batch = |body, header| message(RECORD_BATCH_HEADER, body, header);
    assert_eq!(refused(batch(0, None), 40), PayloadFault::MissingBatchHeader);
    assert_eq!(refused(batch(0, Some(true)), 40), PayloadFault::Compressed);
    assert_eq!(refused(batch(-1, Some(true)), 40), PayloadFault::Compressed);
    assert_eq!(refused(batch(-1, Some(false)), 40), PayloadFault::BodyLength);
    assert_eq!(
        refused(batch(61, Some(false)), 40),
        PayloadFault::TruncatedBody
    );
    assert_eq!(
        refused(batch(1, Some(false)), usize::MAX),
        PayloadFault::Overflow(Span::BodyLength)
    );
    let unparsed = accept_message(100, 40, Err("no table".to_string()));
    assert_eq!(
        unparsed.expect_err("unparsed").message().as_deref(),
        Some("parse Arrow IPC message metadata: no table")
    );
}

#[test]
fn a_batch_is_held_by_record_batch_messages_alone() {
    let other = message(0, 0, Some(true));
    assert_eq!(read_site(other), Ok(FoundSite::Other));
    let batch = message(RECORD_BATCH_HEADER, 9, Some(false));
    assert_eq!(
        read_site(batch),
        Ok(FoundSite::Batch(found(9, &[(0, 8)])))
    );
}

#[test]
fn tags_are_those_of_the_format() {
    assert_eq!(SCHEMA_HEADER, MessageHeader::Schema.0);
    assert_eq!(DICTIONARY_HEADER, MessageHeader::DictionaryBatch.0);
    assert_eq!(RECORD_BATCH_HEADER, MessageHeader::RecordBatch.0);
    assert_eq!(INT_TAG, Type::Int.0);
    assert_eq!(FLOATING_POINT_TAG, Type::FloatingPoint.0);
    assert_eq!(BINARY_TAG, Type::Binary.0);
    assert_eq!(UTF8_TAG, Type::Utf8.0);
    let between = [
        Type::Bool,
        Type::Decimal,
        Type::Date,
        Type::Time,
        Type::Timestamp,
        Type::Interval,
    ];
    let tags: Vec<u8> = between.iter().map(|tag| tag.0).collect();
    assert_eq!(tags, (BOOL_TAG..=INTERVAL_TAG).collect::<Vec<u8>>());
    assert_eq!(DURATION_TAG, Type::Duration.0);
    assert_eq!(LARGE_BINARY_TAG, Type::LargeBinary.0);
    assert_eq!(LARGE_UTF8_TAG, Type::LargeUtf8.0);
    for tag in [Type::Null, Type::List, Type::Union, Type::FixedSizeBinary, Type::Utf8View] {
        assert_eq!(layout_of(fields(&[tag.0])[0]), ColumnLayout::Other);
    }
    assert_eq!(layout_of(fields(&[DURATION_TAG])[0]), ColumnLayout::Fixed);
    let encoded = SchemaField {
        type_tag: UTF8_TAG,
        dictionary: true,
    };
    assert_eq!(layout_of(encoded), ColumnLayout::Other);
}

#[test]
fn batches_are_found_with_their_buffers() {
    let bytes = stream_of(&batch(telemetry_columns()));
    let expected = found(192, &[(0, 0), (0, 16), (64, 0), (64, 8), (128, 0), (128, 16)]);
    let schemas = vec![fields(&[INT_TAG, INT_TAG, FLOATING_POINT_TAG])];
    let contents = find_contents(&bytes).expect("contents");
    assert_eq!(contents.batches, [expected.clone()]);
    assert_eq!(contents.schemas, schemas);
    assert_eq!(
        find_stream(&bytes),
        Ok(FoundStream {
            batch: expected,
            schemas
        })
    );
    assert_eq!(validate_ipc_envelope(&bytes), Ok(()));
}

/// A schema message with one union of the given number of children and no type ids.
fn union_schema(children: usize) -> Vec<u8> {
    let mut fbb = IpcSchemaEncoder::new().schema_to_fb(&Schema::empty());
    fbb.reset();
    let mut nulls = Vec::new();
    for _ in 0..children {
        let name = fbb.create_string("n");
        let kind = NullBuilder::new(&mut fbb).finish().as_union_value();
        let mut field = FieldBuilder::new(&mut fbb);
        field.add_name(name);
        field.add_type_type(Type::Null);
        field.add_type_(kind);
        nulls.push(field.finish());
    }
    let nulls = fbb.create_vector(&nulls);
    let name = fbb.create_string("u");
    let kind = UnionBuilder::new(&mut fbb).finish().as_union_value();
    let mut field = FieldBuilder::new(&mut fbb);
    field.add_name(name);
    field.add_type_type(Type::Union);
    field.add_type_(kind);
    field.add_children(nulls);
    let field = field.finish();
    let list = fbb.create_vector(&[field]);
    let mut schema = SchemaBuilder::new(&mut fbb);
    schema.add_fields(list);
    let header = schema.finish().as_union_value();
    let mut message = MessageBuilder::new(&mut fbb);
    message.add_version(MetadataVersion::V5);
    message.add_header_type(MessageHeader::Schema);
    message.add_header(header);
    let root = message.finish();
    fbb.finish(root, None);
    framed(fbb.finished_data())
}

/// The metadata of a message without a body, with its prefix and padding.
fn framed(metadata: &[u8]) -> Vec<u8> {
    let padded = metadata.len().next_multiple_of(8);
    let mut bytes = vec![0xFF; 4];
    bytes.extend_from_slice(&(padded as u32).to_le_bytes());
    bytes.extend_from_slice(metadata);
    bytes.resize(8 + padded, 0);
    bytes
}

#[test]
fn unions_are_not_opened_without_asking() {
    let plain = stream_of(&batch(telemetry_columns()));
    let schema = frame_len(&plain, 0);

    let mut first = union_schema(129);
    first.extend_from_slice(&plain[schema..]);
    assert_eq!(validate_ipc_envelope(&first), Ok(()));
    assert_eq!(find_stream(&first).expect("stream").schemas, [fields(&[Type::Union.0])]);
    assert_eq!(ArrowWire::try_decode_payload::<TelemetryTableV1>(&first), None);
    let read = ReadOutcome::Filled(first.clone());
    assert_eq!(
        ArrowWire::try_decode_payload_from_reader::<TelemetryTableV1>(first.len(), read),
        None
    );

    let mut second = plain[..schema].to_vec();
    second.extend_from_slice(&union_schema(129));
    second.extend_from_slice(&plain[schema..]);
    assert_eq!(validate_ipc_envelope(&second), Ok(()));
    assert_eq!(ArrowWire::try_decode_payload::<TelemetryTableV1>(&second), None);

    let mut twice = plain[..schema].to_vec();
    twice.extend_from_slice(&plain);
    let repeated = ArrowWire::try_decode_payload::<TelemetryTableV1>(&twice);
    let text = fault(repeated.expect("plain")).message();
    assert!(text.starts_with("decode Arrow record batch: Ipc error: Expected a record"), "{text}");
}

#[test]
fn compressed_batches_are_refused() {
    let mut fbb = IpcSchemaEncoder::new().schema_to_fb(&Schema::empty());
    fbb.reset();
    let compression = BodyCompressionBuilder::new(&mut fbb).finish();
    let mut batch = RecordBatchBuilder::new(&mut fbb);
    batch.add_compression(compression);
    let header = batch.finish().as_union_value();
    let mut message = MessageBuilder::new(&mut fbb);
    message.add_header_type(MessageHeader::RecordBatch);
    message.add_header(header);
    let root = message.finish();
    fbb.finish(root, None);
    let mut bytes = framed(fbb.finished_data());
    bytes.extend_from_slice(&IPC_EOS);
    assert_eq!(fault(decode(&bytes)), PayloadFault::Compressed);
}

#[test]
fn messages_without_a_continuation_marker_are_accepted() {
    let bytes = stream_of(&batch(telemetry_columns()));
    let schema = frame_len(&bytes, 0);
    let mut legacy = bytes[4..schema].to_vec();
    legacy.extend_from_slice(&bytes[schema + 4..]);
    assert_eq!(validate_ipc_envelope(&legacy), Ok(()));
    assert_eq!(decode(&legacy), Ok(telemetry()));
    legacy.truncate(legacy.len() - IPC_EOS.len());
    legacy.extend_from_slice(&[0; 4]);
    assert_eq!(fault(decode(&legacy)), PayloadFault::ShortEndMarker);
}

#[test]
fn number_of_batches_is_checked() {
    let batch = batch(telemetry_columns());
    let schema = batch.0.schema();
    assert_eq!(
        fault(decode(&stream(&[], &schema))),
        PayloadFault::NoBatch
    );
    assert_eq!(
        fault(decode(&stream(&[&batch, &batch], &schema))),
        PayloadFault::ManyBatches
    );
    let end = fault(decode(&IPC_EOS)).message();
    assert_eq!(end, "Arrow IPC stream contains no record batch");
}

#[test]
fn every_truncation_is_refused() {
    let bytes = stream_of(&batch(telemetry_columns()));
    for keep in 0..bytes.len() {
        assert!(validate_ipc_envelope(&bytes[..keep]).is_err(), "{keep}");
        fault(decode(&bytes[..keep]));
    }
}

#[test]
fn every_extension_is_refused_as_trailing() {
    let bytes = stream_of(&batch(telemetry_columns()));
    for extra in [&[0_u8][..], &IPC_EOS, &bytes] {
        let mut long = bytes.clone();
        long.extend_from_slice(extra);
        assert_eq!(fault(decode(&long)), PayloadFault::TrailingBytes);
    }
}

#[test]
fn unreadable_metadata_is_refused() {
    let mut bytes = vec![0xFF, 0xFF, 0xFF, 0xFF, 8, 0, 0, 0];
    bytes.extend_from_slice(&[0xEE; 8]);
    bytes.extend_from_slice(&IPC_EOS);
    let text = fault(decode(&bytes)).message();
    assert!(text.starts_with("parse Arrow IPC message metadata: "), "{text}");
    assert!(text.len() > "parse Arrow IPC message metadata: ".len());
}

#[test]
fn a_stream_needs_its_schema() {
    let bytes = stream_of(&batch(telemetry_columns()));
    let headless = &bytes[frame_len(&bytes, 0)..];
    assert_eq!(validate_ipc_envelope(headless), Ok(()));
    let text = fault(decode(headless)).message();
    assert!(text.starts_with("open Arrow IPC stream: Ipc error: Expected a schema"), "{text}");
}

#[test]
fn a_batch_must_fit_its_schema() {
    let wide = stream_of(&batch(telemetry_columns()));
    let narrow = stream_of(&batch(vec![telemetry_columns().remove(0)]));
    let mut mixed = wide[..frame_len(&wide, 0)].to_vec();
    mixed.extend_from_slice(&narrow[frame_len(&narrow, 0)..]);
    assert_eq!(validate_ipc_envelope(&mixed), Ok(()));
    let text = fault(decode(&mixed)).message();
    assert!(text.starts_with("decode Arrow record batch: "), "{text}");
}

#[test]
fn the_only_batch_is_taken() {
    let item = || Some(Ok(batch(telemetry_columns())));
    assert_eq!(only_batch(item(), false).expect("only").0.num_rows(), 2);
    assert_eq!(
        only_batch(item(), true).err(),
        Some(UWireError::InvalidPayload(PayloadFault::ManyBatches))
    );
    assert_eq!(
        only_batch(None, false).err(),
        Some(UWireError::InvalidPayload(PayloadFault::NoBatch))
    );
    let failed = only_batch(Some(Err("short".to_string())), false).err();
    let text = failed.and_then(|error| error.message());
    assert_eq!(text.as_deref(), Some("decode Arrow record batch: short"));
}

#[test]
fn telemetry_round_trip_keeps_every_bit() {
    let table = TelemetryTableV1 {
        timestamps_ns: vec![0, u64::MAX, 7],
        channel: vec![u32::MAX, 0, 1],
        value: vec![f64::NAN.to_bits() | 1, (-0.0_f64).to_bits(), f64::INFINITY.to_bits()],
    };
    let bytes = encode_value(&table).expect("encode");
    assert_eq!(decode(&bytes), Ok(table.clone()));
    assert_eq!(ArrowWire::try_decode_payload(&bytes), Some(Ok(table)));
}

#[test]
fn empty_table_round_trips() {
    let table = TelemetryTableV1::fixture(0, 5);
    let bytes = encode_value(&table).expect("encode");
    assert_eq!(decode_value::<TelemetryTableV1>(&bytes), Ok(table));
}

#[test]
fn equal_tables_are_encoded_alike() {
    let bytes = encode_value(&telemetry()).expect("value");
    assert_eq!(
        bytes,
        encode_batch(&batch(telemetry_columns())).expect("batch")
    );
    assert_eq!(bytes, stream_of(&batch(telemetry_columns())));
    let owned = ArrowWire::encode_payload_owned(&telemetry()).expect("owned");
    assert_eq!(owned, bytes);
    let layout = ArrowWire::payload_layout(&telemetry()).expect("layout");
    assert_eq!((layout.len(), layout.align()), (bytes.len(), 1));
    let mut exact = vec![0; bytes.len()];
    ArrowWire::encode_payload(&telemetry(), &mut exact).expect("in place");
    assert_eq!(exact, bytes);
}

#[test]
fn uneven_columns_are_not_encoded() {
    let mut table = telemetry();
    table.channel.pop();
    let error = encode_value(&table).expect_err("uneven");
    assert_eq!(
        error.message().as_deref(),
        Some(
            "build telemetry record batch: Invalid argument error: \
             all columns in a record batch must have the same length"
        )
    );
    assert_eq!(ArrowWire::payload_layout(&table), Err(error.clone()));
    let mut untouched = [0xA5; 4];
    assert_eq!(
        ArrowWire::encode_payload(&table, &mut untouched),
        Err(error)
    );
    assert_eq!(untouched, [0xA5; 4]);
}

#[test]
fn telemetry_columns_are_named_and_typed() {
    let built = telemetry().to_record_batch().expect("batch").0;
    let names: Vec<String> = built.schema().fields().iter().map(|f| f.name().clone()).collect();
    assert_eq!(names, ["timestamps_ns", "channel", "value"]);
    let kinds: Vec<DataType> = built.schema().fields().iter().map(|f| f.data_type().clone()).collect();
    assert_eq!(kinds, [DataType::UInt64, DataType::UInt32, DataType::Float64]);
    assert!(built.schema().fields().iter().all(|field| !field.is_nullable()));
    let values = built.column(2).as_any().downcast_ref::<Float64Array>().expect("floats");
    assert_eq!(values.values().to_vec(), [1.5, -2.5]);
    assert_eq!(built.column(1).len(), 2);
}

#[test]
fn required_columns_are_found_by_name() {
    let mut columns = telemetry_columns();
    columns.reverse();
    columns.insert(1, ("note", Arc::new(StringArray::from(vec!["a", "b"]))));
    let batch = batch(columns);
    assert_eq!(required_column(&batch, TelemetryColumn::Value), Ok(0));
    assert_eq!(required_column(&batch, TelemetryColumn::Channel), Ok(2));
    assert_eq!(required_column(&batch, TelemetryColumn::TimestampsNs), Ok(3));
    assert_eq!(TelemetryTableV1::from_record_batch(batch), Ok(telemetry()));
}

#[test]
fn first_of_two_equal_names_counts() {
    let mut columns = telemetry_columns();
    columns.push(("channel", Arc::new(UInt32Array::from(vec![8, 9]))));
    assert_eq!(
        TelemetryTableV1::from_record_batch(batch(columns)),
        Ok(telemetry())
    );
}

#[test]
fn column_faults_are_named() {
    let mut columns = telemetry_columns();
    columns.remove(1);
    let missing = fault(TelemetryTableV1::from_record_batch(batch(columns)));
    assert_eq!(
        missing,
        PayloadFault::Column(TelemetryColumn::Channel, ColumnFault::Missing)
    );
    assert_eq!(
        missing.message(),
        "telemetry required column `channel` is missing"
    );

    let mut columns = telemetry_columns();
    columns[2].1 = Arc::new(UInt64Array::from(vec![1, 2]));
    let wrong = fault(TelemetryTableV1::from_record_batch(batch(columns)));
    assert_eq!(
        wrong.message(),
        "telemetry column `value` has type UInt64, expected Float64"
    );

    let fields = vec![Field::new("timestamps_ns", DataType::UInt64, true)];
    let array = Arc::new(UInt64Array::from(vec![Some(1), None])) as ArrayRef;
    let nullable = arrow_array::RecordBatch::try_new(Arc::new(Schema::new(fields)), vec![array]);
    let nullable = RecordBatch(nullable.expect("nullable"));
    assert_eq!(
        fault(TelemetryTableV1::from_record_batch(nullable)).message(),
        "telemetry required column `timestamps_ns` is declared nullable"
    );

    let nulls: PayloadFault<String> =
        PayloadFault::Column(TelemetryColumn::Channel, ColumnFault::NullValues);
    assert_eq!(
        nulls.message(),
        "telemetry required column `channel` contains null values"
    );
    let downcast: PayloadFault<String> =
        PayloadFault::Column(TelemetryColumn::TimestampsNs, ColumnFault::Downcast);
    assert_eq!(
        downcast.message(),
        "telemetry column `timestamps_ns` cannot be downcast to its declared type"
    );
}

#[test]
fn fixture_is_deterministic() {
    let table = TelemetryTableV1::fixture(18, 7);
    assert_eq!(table.timestamps_ns[..3], [7_000_000, 7_000_500, 7_001_000]);
    assert_eq!(table.channel[14..], [14, 15, 0, 1]);
    let values: Vec<f64> = table.value.iter().map(|bits| f64::from_bits(*bits)).collect();
    assert_eq!(values[..4], [3.5, 3.0, 2.5, 2.0]);
    let wrapped = TelemetryTableV1::fixture(2, u64::MAX);
    assert_eq!(
        wrapped.timestamps_ns,
        [u64::MAX - 999_999, u64::MAX - 999_499]
    );
    assert_eq!(f64::from_bits(wrapped.value[0]), 307.5);
}

#[test]
fn halves_are_exact() {
    for k in 0..1_024_u64 {
        assert_eq!(half_bits(k), (k as f64 * 0.5).to_bits(), "{k}");
    }
}

#[test]
fn writer_takes_all_or_nothing() {
    let mut writer = BoundedWriter::new(5);
    assert_eq!(writer.append(&[1, 2, 3]), Ok(3));
    assert_eq!(writer.append(&[4, 5, 6]), Err(WriteFault::Limit(5)));
    let error = writer.write(&[4, 5, 6]).expect_err("over the limit");
    assert_eq!(
        error.to_string(),
        "Arrow IPC payload exceeds the 5-byte limit"
    );
    assert_eq!(writer.write(&[4, 5]).expect("fits"), 2);
    writer.flush().expect("flush");
    assert_eq!(writer.append(&[]), Ok(0));
    assert_eq!(writer.into_inner(), [1, 2, 3, 4, 5]);
    assert_eq!(
        WriteFault::Overflow.message(),
        "Arrow IPC payload length overflow"
    );
}

#[test]
fn encoding_stops_at_the_limit() {
    let limit = "Io error: Arrow IPC payload exceeds the 67108864-byte limit";
    let long = encode_value(&series(&"n".repeat(MAX_ARROW_PAYLOAD_LEN), vec![1]));
    assert_eq!(
        long.expect_err("schema").message(),
        Some(format!("create Arrow IPC stream: {limit}"))
    );

    // All messages are padded to 64 bytes, so a batch can fill the limit to the last byte.
    let small = encode_value(&series("n", vec![0; 8])).expect("small").len();
    let room = MAX_ARROW_PAYLOAD_LEN - (small - 64 - IPC_EOS.len());
    let full = encode_value(&series("n", vec![0; room / 8]));
    assert_eq!(
        full.expect_err("end").message(),
        Some(format!("finish Arrow IPC stream: {limit}"))
    );
    let over = encode_value(&series("n", vec![0; room / 8 + 8]));
    assert_eq!(
        over.expect_err("batch").message(),
        Some(format!("write Arrow record batch: {limit}"))
    );
    let fits = encode_value(&series("n", vec![0; room / 8 - 8])).expect("fits");
    assert_eq!(fits.len(), MAX_ARROW_PAYLOAD_LEN - 64 + IPC_EOS.len());
    assert_eq!(&fits[fits.len() - 8..], &IPC_EOS);
}

fn dictionary(values: ArrayRef) -> DictionaryArray<Int8Type> {
    DictionaryArray::try_new(Int8Array::from(vec![1, 0]), values).expect("dictionary")
}

#[test]
fn batches_of_any_type_are_encoded_as_complete_streams() {
    let words = dictionary(Arc::new(StringArray::from(vec!["low", "high"])));
    let lists = ListArray::from_iter_primitive::<UInt64Type, _, _>(vec![
        Some(vec![Some(1), None]),
        None,
    ]);
    let fields = vec![
        Field::new("level", words.data_type().clone(), false),
        Field::new("lists", lists.data_type().clone(), true),
    ];
    let schema = Schema::new(fields).with_metadata([("unit".to_string(), "V".to_string())]);
    let columns = vec![Arc::new(words) as ArrayRef, Arc::new(lists) as ArrayRef];
    let batch = arrow_array::RecordBatch::try_new(Arc::new(schema), columns).expect("batch");
    let bytes = encode_batch(&RecordBatch(batch)).expect("encode");
    assert_eq!(validate_ipc_envelope(&bytes), Ok(()));
    assert_eq!(find_contents(&bytes).expect("contents").batches.len(), 1);
    assert_eq!(&bytes[bytes.len() - 8..], &IPC_EOS);
    assert_eq!(
        fault(decode(&bytes)),
        PayloadFault::Column(TelemetryColumn::TimestampsNs, ColumnFault::Missing)
    );
}

#[test]
fn schemas_that_ipc_cannot_hold_are_refused() {
    let inner = dictionary(Arc::new(StringArray::from(vec!["low", "high"])));
    let outer = dictionary(Arc::new(inner));
    let error = encode_batch(&batch(vec![("d", Arc::new(outer))])).expect_err("nested dictionary");
    let text = error.message().expect("text");
    assert!(
        text.starts_with("create Arrow IPC stream: Invalid argument error: Arrow IPC field"),
        "{text}"
    );
}

#[test]
fn payload_types_set_their_own_policy() {
    let points = series("points", vec![4, 5, 6]);
    let bytes = encode_value(&points).expect("encode");
    assert_eq!(decode_value::<Series>(&bytes), Ok(points));

    let unnamed = encode_value(&series("", vec![1])).expect_err("unnamed");
    assert_eq!(unnamed.message().as_deref(), Some("a series needs a name"));
    let wide = encode_value(&telemetry()).expect("encode");
    let refused = decode_value::<Series>(&wide).expect_err("refused");
    assert_eq!(
        refused.message().as_deref(),
        Some("a series has one column")
    );
}

#[test]
fn reader_outcomes_are_told_apart() {
    let bytes = encode_value(&telemetry()).expect("encode");
    let filled = ReadOutcome::Filled(bytes.clone());
    let decoded = ArrowWire::try_decode_payload_from_reader(bytes.len(), filled);
    assert_eq!(decoded, Some(Ok(telemetry())));
    let mismatched = |declared: usize| {
        let read = ReadOutcome::Filled(bytes.clone());
        let tried = ArrowWire::try_decode_payload_from_reader(declared, read.clone());
        let decoded = ArrowWire::decode_payload_from_reader::<TelemetryTableV1>(declared, read);
        assert_eq!(tried, Some(decoded.clone()));
        fault(decoded)
    };
    assert_eq!(mismatched(0), PayloadFault::LongRead(0));
    assert_eq!(
        mismatched(bytes.len() - 1),
        PayloadFault::LongRead(bytes.len() - 1)
    );
    let declared = bytes.len() + 1;
    assert_eq!(
        mismatched(declared).message(),
        format!(
            "Arrow payload reader did not yield the declared {declared} bytes: \
             failed to fill whole buffer"
        )
    );
    let short: Result<TelemetryTableV1, UWireError> =
        ArrowWire::decode_payload_from_reader(16, ReadOutcome::Short("end of file".to_string()));
    assert_eq!(
        fault(short).message(),
        "Arrow payload reader did not yield the declared 16 bytes: end of file"
    );
    let long: Result<TelemetryTableV1, UWireError> =
        ArrowWire::decode_payload_from_reader(16, ReadOutcome::Long);
    assert_eq!(
        fault(long).message(),
        "Arrow payload reader yielded more than the declared 16 bytes"
    );
}

#[test]
fn plain_layouts_are_decoded_without_asking() {
    let mut columns = telemetry_columns();
    columns.push(("flag", Arc::new(BooleanArray::from(vec![true, false]))));
    columns.push(("blob", Arc::new(BinaryArray::from(vec![&b"x"[..], &b""[..]]))));
    columns.push(("text", Arc::new(LargeStringArray::from(vec!["long", "er"]))));
    let bytes = stream_of(&batch(columns));
    assert_eq!(
        ArrowWire::try_decode_payload(&bytes),
        Some(Ok(telemetry()))
    );
    let refused = ArrowWire::try_decode_payload::<TelemetryTableV1>(&bytes[1..]);
    fault(refused.expect("refused before reading"));
}

#[test]
fn other_layouts_are_left_to_the_caller() {
    let mut columns = telemetry_columns();
    let keys = FixedSizeBinaryArray::try_from_iter([[1_u8, 2], [3, 4]].iter()).expect("keys");
    columns.push(("key", Arc::new(keys)));
    let bytes = stream_of(&batch(columns));
    assert_eq!(ArrowWire::try_decode_payload::<TelemetryTableV1>(&bytes), None);
    let read = ReadOutcome::Filled(bytes.clone());
    assert_eq!(
        ArrowWire::try_decode_payload_from_reader::<TelemetryTableV1>(bytes.len(), read),
        None
    );
    assert_eq!(decode(&bytes), Ok(telemetry()));
}

#[test]
fn layouts_are_checked_against_the_body() {
    let check = |tags: &[u8], batch: FoundBatch| {
        check_stream(&FoundStream {
            batch,
            schemas: vec![fields(tags)],
        })
    };
    let columns = [INT_TAG, UTF8_TAG, BOOL_TAG];
    let fitting = [(0, 0), (0, 64), (64, 0), (64, 12), (76, 1), (128, 0), (128, 8)];
    assert!(check(&columns, found(136, &fitting)));
    assert!(!check(&columns, found(135, &fitting)));
    assert!(check(&columns, found(136, &fitting[..3])));

    let mut torn = fitting;
    torn[3].1 = 11;
    assert!(!check(&columns, found(136, &torn)));
    assert!(!check(&[INT_TAG, LARGE_UTF8_TAG, BOOL_TAG], found(136, &fitting)));
    let mut negative = fitting;
    negative[0].0 = -1;
    assert!(!check(&columns, found(136, &negative)));
    let mut huge = fitting;
    huge[6] = (i64::MAX, i64::MAX);
    assert!(!check(&columns, found(136, &huge)));
    assert!(!check(&[Type::List.0], found(0, &[])));
    let bare = FoundStream {
        batch: found(136, &fitting),
        schemas: vec![],
    };
    assert!(check_stream(&bare));
    assert!(check_fields(&fields(&columns)));
    assert!(!check_fields(&fields(&[INT_TAG, Type::Map.0])));
    assert!(check_offsets(&fields(&columns), &found(0, &fitting).buffers));
    assert!(!check_offsets(&fields(&columns), &found(0, &torn).buffers));
}

#[test]
fn plain_schemas_are_encoded_without_asking() {
    let bytes = encode_value(&telemetry()).expect("encode");
    assert_eq!(try_encode_value(&telemetry()), Some(Ok(bytes.clone())));
    let owned = ArrowWire::try_encode_payload_owned(&telemetry());
    assert_eq!(owned.expect("plain").expect("owned"), bytes);
    let layout = ArrowWire::try_payload_layout(&telemetry()).expect("plain");
    assert_eq!(layout.expect("layout").len(), bytes.len());
    let mut place = vec![0xA5; bytes.len() + 1];
    let done = ArrowWire::try_encode_payload(&telemetry(), &mut place);
    assert_eq!(done, Some(Ok(())));
    assert_eq!(&place[..bytes.len()], bytes.as_slice());
    assert_eq!(place[bytes.len()], 0xA5);
    let unnamed = try_encode_value(&series("", vec![1])).expect("no batch");
    assert!(unnamed.is_err());

    let name = "n".repeat(PLAIN_NAME_LIMIT + 1);
    let long = series(&name, vec![1]);
    assert_eq!(try_encode_value(&long), None);
    assert_eq!(ArrowWire::try_payload_layout(&long), None);
    assert_eq!(ArrowWire::try_encode_payload_owned(&long), None);
    let mut untouched = [0xA5; 4];
    assert_eq!(ArrowWire::try_encode_payload(&long, &mut untouched), None);
    assert_eq!(untouched, [0xA5; 4]);
    assert!(encode_value(&long).is_ok());
}

#[test]
fn schemas_are_checked_for_plainness() {
    assert!(check_schema(&batch(telemetry_columns())));
    let text = batch(vec![("t", Arc::new(StringArray::from(vec!["a"])))]);
    assert!(!check_schema(&text));
    assert_eq!(try_encode_batch(&text), None);
    let column = || ("c", Arc::new(UInt64Array::from(vec![1])) as ArrayRef);
    let many = |count: usize| batch((0..count).map(|_| column()).collect());
    assert!(check_schema(&many(PLAIN_COLUMN_LIMIT)));
    assert!(!check_schema(&many(PLAIN_COLUMN_LIMIT + 1)));
    let wide = try_encode_batch(&many(PLAIN_COLUMN_LIMIT)).expect("plain").expect("encoded");
    assert_eq!(validate_ipc_envelope(&wide), Ok(()));

    let note = || [("unit".to_string(), "V".to_string())];
    let with_metadata = |field: bool| {
        let mut c = Field::new("c", DataType::UInt64, false);
        let mut metadata = vec![];
        if field {
            c = c.with_metadata(note());
        } else {
            metadata.extend(note());
        }
        let schema = Schema::new(vec![c]).with_metadata(HashMap::from_iter(metadata));
        let columns = vec![column().1];
        RecordBatch(arrow_array::RecordBatch::try_new(Arc::new(schema), columns).expect("batch"))
    };
    assert!(!check_schema(&with_metadata(true)));
    assert!(!check_schema(&with_metadata(false)));
}

#[test]
fn numerals_have_no_leading_zeros() {
    for n in [0, 9, 10, 100, 90_210, usize::MAX] {
        assert_eq!(decimal_text(n), n.to_string());
    }
}

#[test]
fn every_fault_has_its_words() {
    let words: Vec<(PayloadFault<String>, &str)> = vec![
        (
            PayloadFault::Truncated(Span::MessagePrefix),
            "Arrow IPC message prefix is truncated",
        ),
        (
            PayloadFault::Overflow(Span::ContinuationLength),
            "Arrow IPC continuation length overflow",
        ),
        (
            PayloadFault::Overflow(Span::BodyLength),
            "Arrow IPC body length overflow",
        ),
        (
            PayloadFault::TrailingBytes,
            "Arrow IPC stream has trailing bytes after EOS",
        ),
        (
            PayloadFault::ShortEndMarker,
            "Arrow IPC stream must end with the eight-byte continuation/EOS marker",
        ),
        (
            PayloadFault::TruncatedMetadata,
            "Arrow IPC stream has truncated message metadata",
        ),
        (
            PayloadFault::MissingBatchHeader,
            "Arrow IPC record-batch metadata is missing",
        ),
        (
            PayloadFault::Compressed,
            "compressed Arrow IPC record batches are not supported",
        ),
        (
            PayloadFault::BodyLength,
            "Arrow IPC message has a negative or oversized body length",
        ),
        (
            PayloadFault::TruncatedBody,
            "Arrow IPC stream has a truncated message body",
        ),
        (
            PayloadFault::ManyBatches,
            "Arrow IPC stream contains more than one record batch",
        ),
    ];
    for (fault, text) in words {
        assert_eq!(fault.message(), text);
    }
    let small: UWireError = UWireError::BufferTooSmall {
        expected: 2,
        actual: 1,
    };
    assert_eq!(small.message(), None);
}

#[test]
fn wire_names_itself() {
    assert_eq!(ArrowWire::name(), "arrow-ipc-stream");
    assert_eq!(ArrowWire::encoding().encoding_id, ARROW_ENCODING_ID);
    assert_eq!(ArrowWire::encoding().content_type, ARROW_CONTENT_TYPE);
    assert_eq!(ARROW_ENCODING_ID, "up.arrow-ipc-stream");
    assert_eq!(ARROW_CONTENT_TYPE, "application/vnd.apache.arrow.stream");
    assert_eq!(ArrowWire::default(), ArrowWire);
}

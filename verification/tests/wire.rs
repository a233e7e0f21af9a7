//! Telemetry payloads over the wire, from value to stream and back.
use std::io::{self, Cursor, Error, ErrorKind, Read};
use std::sync::Arc;

use arrow_array::{
    ArrayRef, Float64Array, Int64Array, RecordBatch, StringArray, UInt32Array, UInt64Array,
};
use arrow_ipc::writer::StreamWriter;
use arrow_schema::{DataType, Field, Schema};
use up_wire_arrow::envelope::ensure_payload_limit;
use up_wire_arrow::{
    ArrowWire, ArrowWirePayload, ReadOutcome, TelemetryTableV1, UWireError, MAX_ARROW_PAYLOAD_LEN,
};

const IPC_EOS: [u8; 8] = [0xFF, 0xFF, 0xFF, 0xFF, 0, 0, 0, 0];

fn bits(values: &[f64]) -> Vec<u64> {
    values.iter().map(|value| value.to_bits()).collect()
}

fn encode(table: &TelemetryTableV1) -> Vec<u8> {
    ArrowWire::encode_payload_owned(table).expect("encode fixture").to_vec()
}

fn encode_batches(batches: &[RecordBatch], schema: &Arc<Schema>) -> Vec<u8> {
    let mut bytes = Vec::new();
    {
        let mut writer = StreamWriter::try_new(&mut bytes, schema).expect("create stream");
        for batch in batches {
            writer.write(batch).expect("write batch");
        }
        writer.finish().expect("finish stream");
    }
    bytes
}

fn decode(bytes: &[u8]) -> Result<TelemetryTableV1, UWireError> {
    ArrowWire::decode_payload(bytes)
}

fn decode_from_reader<R: Read>(
    mut reader: R,
    payload_len: usize,
) -> Result<TelemetryTableV1, UWireError> {
    ensure_payload_limit(payload_len)?;
    let mut bytes = vec![0_u8; payload_len];
    let read = match reader.read_exact(&mut bytes) {
        Err(error) => ReadOutcome::Short(error.to_string()),
        Ok(()) => match reader.read(&mut [0_u8; 1]) {
            Ok(1) => ReadOutcome::Long,
            _ => ReadOutcome::Filled(bytes),
        },
    };
    ArrowWire::decode_payload_from_reader(payload_len, read)
}

fn assert_invalid(result: Result<TelemetryTableV1, UWireError>) {
    assert!(matches!(result, Err(UWireError::InvalidPayload(_))));
}

#[test]
fn round_trip_contiguous_and_reader() {
    let expected = TelemetryTableV1::fixture(4_096, 7);
    let bytes = encode(&expected);
    assert_eq!(decode(&bytes).expect("contiguous decode"), expected);
    let actual = decode_from_reader(Cursor::new(&bytes), bytes.len()).expect("reader decode");
    assert_eq!(actual, expected);
}

#[test]
fn layout_matches_owned_encoding() {
    let table = TelemetryTableV1::fixture(128, 3);
    let layout = ArrowWire::payload_layout(&table).expect("layout");
    assert_eq!(layout.align(), 1);
    assert_eq!(layout.len(), encode(&table).len());
}

#[test]
fn encoded_stream_has_exact_terminal_eos() {
    let bytes = encode(&TelemetryTableV1::fixture(4, 1));
    assert_eq!(
        bytes.get(bytes.len() - IPC_EOS.len()..),
        Some(IPC_EOS.as_slice())
    );
    assert_eq!(
        bytes
            .windows(IPC_EOS.len())
            .filter(|window| *window == IPC_EOS)
            .count(),
        1
    );
}

#[test]
fn reordered_and_additive_columns_are_accepted() {
    let schema = Arc::new(Schema::new(vec![
        Field::new("value", DataType::Float64, false),
        Field::new("extra", DataType::Utf8, false),
        Field::new("timestamps_ns", DataType::UInt64, false),
        Field::new("channel", DataType::UInt32, false),
    ]));
    let batch = RecordBatch::try_new(
        Arc::clone(&schema),
        vec![
            Arc::new(Float64Array::from(vec![1.5, 2.5])) as ArrayRef,
            Arc::new(StringArray::from(vec!["a", "b"])) as ArrayRef,
            Arc::new(UInt64Array::from(vec![10, 20])) as ArrayRef,
            Arc::new(UInt32Array::from(vec![3, 4])) as ArrayRef,
        ],
    )
    .expect("batch");
    let bytes = encode_batches(&[batch], &schema);
    let expected = TelemetryTableV1 {
        timestamps_ns: vec![10, 20],
        channel: vec![3, 4],
        value: bits(&[1.5, 2.5]),
    };
    assert_eq!(decode(&bytes).expect("decode"), expected);
    assert_eq!(
        ArrowWire::try_decode_payload::<TelemetryTableV1>(&bytes),
        Some(Ok(expected))
    );
}

#[test]
fn wrong_required_type_is_rejected() {
    let schema = Arc::new(Schema::new(vec![
        Field::new("timestamps_ns", DataType::Int64, false),
        Field::new("channel", DataType::UInt32, false),
        Field::new("value", DataType::Float64, false),
    ]));
    let batch = RecordBatch::try_new(
        Arc::clone(&schema),
        vec![
            Arc::new(Int64Array::from(vec![1])) as ArrayRef,
            Arc::new(UInt32Array::from(vec![2])) as ArrayRef,
            Arc::new(Float64Array::from(vec![3.0])) as ArrayRef,
        ],
    )
    .expect("batch");
    assert_invalid(decode(&encode_batches(&[batch], &schema)));
}

#[test]
fn nullable_required_column_is_rejected() {
    let schema = Arc::new(Schema::new(vec![
        Field::new("timestamps_ns", DataType::UInt64, true),
        Field::new("channel", DataType::UInt32, false),
        Field::new("value", DataType::Float64, false),
    ]));
    let batch = RecordBatch::try_new(
        Arc::clone(&schema),
        vec![
            Arc::new(UInt64Array::from(vec![Some(1), Some(2)])) as ArrayRef,
            Arc::new(UInt32Array::from(vec![2, 3])) as ArrayRef,
            Arc::new(Float64Array::from(vec![3.0, 4.0])) as ArrayRef,
        ],
    )
    .expect("batch");
    assert_invalid(decode(&encode_batches(&[batch], &schema)));
}

#[test]
fn null_required_value_is_rejected() {
    let schema = Arc::new(Schema::new(vec![
        Field::new("timestamps_ns", DataType::UInt64, true),
        Field::new("channel", DataType::UInt32, false),
        Field::new("value", DataType::Float64, false),
    ]));
    let batch = RecordBatch::try_new(
        Arc::clone(&schema),
        vec![
            Arc::new(UInt64Array::from(vec![Some(1), None])) as ArrayRef,
            Arc::new(UInt32Array::from(vec![2, 3])) as ArrayRef,
            Arc::new(Float64Array::from(vec![3.0, 4.0])) as ArrayRef,
        ],
    )
    .expect("nullable batch");
    assert_invalid(decode(&encode_batches(&[batch], &schema)));
}

#[test]
fn missing_required_column_is_rejected() {
    let schema = Arc::new(Schema::new(vec![
        Field::new("timestamps_ns", DataType::UInt64, false),
        Field::new("value", DataType::Float64, false),
    ]));
    let batch = RecordBatch::try_new(
        Arc::clone(&schema),
        vec![
            Arc::new(UInt64Array::from(vec![1])) as ArrayRef,
            Arc::new(Float64Array::from(vec![2.0])) as ArrayRef,
        ],
    )
    .expect("batch");
    assert_invalid(decode(&encode_batches(&[batch], &schema)));
}

#[test]
fn no_batch_is_rejected() {
    let schema = TelemetryTableV1::fixture(1, 1)
        .to_record_batch()
        .expect("batch")
        .0
        .schema();
    assert_invalid(decode(&encode_batches(&[], &schema)));
}

#[test]
fn multiple_batches_are_rejected() {
    let batch = TelemetryTableV1::fixture(1, 1)
        .to_record_batch()
        .expect("batch")
        .0;
    let bytes = encode_batches(&[batch.clone(), batch.clone()], &batch.schema());
    assert_invalid(decode(&bytes));
}

#[test]
fn missing_eos_is_rejected() {
    let mut bytes = encode(&TelemetryTableV1::fixture(1, 1));
    bytes.truncate(bytes.len() - IPC_EOS.len());
    assert_invalid(decode(&bytes));
}

#[test]
fn truncated_eos_is_rejected() {
    let mut bytes = encode(&TelemetryTableV1::fixture(1, 1));
    bytes.truncate(bytes.len() - 1);
    assert_invalid(decode(&bytes));
}

#[test]
fn trailing_bytes_are_rejected() {
    let mut bytes = encode(&TelemetryTableV1::fixture(1, 1));
    bytes.push(0);
    assert_invalid(decode(&bytes));
}

#[test]
fn second_eos_is_rejected_as_trailing_data() {
    let mut bytes = encode(&TelemetryTableV1::fixture(1, 1));
    bytes.extend_from_slice(&IPC_EOS);
    assert_invalid(decode(&bytes));
}

#[test]
fn malformed_stream_is_rejected() {
    assert_invalid(decode(b"not an Arrow IPC stream"));
}

struct ShortReader;

impl Read for ShortReader {
    fn read(&mut self, _buf: &mut [u8]) -> io::Result<usize> {
        Err(Error::new(ErrorKind::UnexpectedEof, "short fixture"))
    }
}

#[test]
fn short_reader_is_rejected() {
    assert_invalid(decode_from_reader(ShortReader, 16));
}

#[test]
fn overlong_reader_is_rejected() {
    let mut bytes = encode(&TelemetryTableV1::fixture(1, 1));
    let declared = bytes.len();
    bytes.push(0);
    let error = decode_from_reader(Cursor::new(&bytes), declared).expect_err("more than declared");
    let expected = format!("Arrow payload reader yielded more than the declared {declared} bytes");
    assert_eq!(error.message(), Some(expected));
}

struct PanicReader;

impl Read for PanicReader {
    fn read(&mut self, _buf: &mut [u8]) -> io::Result<usize> {
        panic!("oversized input must be rejected before reading")
    }
}

#[test]
fn oversized_declared_reader_input_is_rejected_before_allocation() {
    assert_invalid(decode_from_reader(PanicReader, MAX_ARROW_PAYLOAD_LEN + 1));
}

#[test]
fn destination_size_uses_prefix_write_semantics() {
    let table = TelemetryTableV1::fixture(8, 4);
    let expected = encode(&table);
    let mut short = vec![0_u8; expected.len() - 1];
    assert_eq!(
        ArrowWire::encode_payload(&table, &mut short),
        Err(UWireError::BufferTooSmall {
            expected: expected.len(),
            actual: expected.len() - 1,
        })
    );
    assert!(short.iter().all(|byte| *byte == 0));

    let mut large = vec![0xA5; expected.len() + 7];
    ArrowWire::encode_payload(&table, &mut large).expect("encode into larger destination");
    assert_eq!(&large[..expected.len()], expected.as_slice());
    assert!(large[expected.len()..].iter().all(|byte| *byte == 0xA5));
}

#[test]
fn identities_are_distinct_provisional_experimental_values() {
    assert_ne!(ArrowWire::wire_id(), ArrowWire::payload_family_id());
    for identity in [ArrowWire::wire_id(), ArrowWire::payload_family_id()] {
        assert!((0x8000..=0xFFFE).contains(&identity.compact_id()));
        assert!(identity.literal_id().contains("experimental"));
    }
    assert_eq!(ArrowWire::wire_id().compact_id(), 0xA201);
    assert_eq!(ArrowWire::payload_family_id().compact_id(), 0xA202);
    assert_eq!(
        ArrowWire::wire_id().literal_id(),
        "org.eclipse.uprotocol.wire.arrow-ipc-stream.experimental"
    );
    assert_eq!(
        ArrowWire::payload_family_id().literal_id(),
        "org.eclipse.uprotocol.payload.arrow-ipc-stream.experimental"
    );
}

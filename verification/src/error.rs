//! The errors of the codec, each with the reason it was raised for.
//!
//! The error types take the type of their texts as a parameter: `String` in
//! running code, `Seq<char>` in contracts.
use vstd::prelude::*;

use crate::text::{decimal, decimal_text, join, pair};
use crate::MAX_ARROW_PAYLOAD_LEN;

verus! {

/// What an offset of the stream leads to, where it is too large to be one.
#[derive(Clone, Copy, Debug, PartialEq, Eq)]
pub enum Span {
    /// The four bytes that open a message.
    MessagePrefix,
    /// The metadata length after a continuation marker.
    ContinuationLength,
    /// The message metadata.
    MetadataLength,
    /// The message body.
    BodyLength,
}

/// A column that a telemetry batch must hold.
#[derive(Clone, Copy, Debug, PartialEq, Eq)]
pub enum TelemetryColumn {
    /// `timestamps_ns`, of type `UInt64`.
    TimestampsNs,
    /// `channel`, of type `UInt32`.
    Channel,
    /// `value`, of type `Float64`.
    Value,
}

/// What is wrong with a required column.
#[derive(Clone, Debug, PartialEq, Eq)]
pub enum ColumnFault<S> {
    /// The batch has no column of that name.
    Missing,
    /// The column has another type, written out here.
    WrongType(S),
    /// The column is declared nullable.
    Nullable,
    /// The column holds null values.
    NullValues,
    /// The column's array is not of the array type that its data type calls for.
    Downcast,
}

/// Why a payload was not accepted.
#[derive(Clone, Debug, PartialEq, Eq)]
pub enum PayloadFault<S> {
    /// The payload, of this length, is over the size limit.
    TooLong(usize),
    /// The stream ends inside the given part.
    Truncated(Span),
    /// The end of the given part is beyond the largest offset.
    Overflow(Span),
    /// Bytes follow the end-of-stream marker.
    TrailingBytes,
    /// The stream ends in four zero bytes without a continuation marker.
    ShortEndMarker,
    /// The stream ends inside the metadata of a message.
    TruncatedMetadata,
    /// The metadata of a message cannot be parsed, for the reason given.
    Metadata(S),
    /// A record-batch message has no record-batch header.
    MissingBatchHeader,
    /// A record batch is compressed.
    Compressed,
    /// The body length of a message is negative or no offset.
    BodyLength,
    /// The stream ends inside the body of a message.
    TruncatedBody,
    /// The stream holds no record batch.
    NoBatch,
    /// The stream holds more than one record batch.
    ManyBatches,
    /// The stream cannot be opened, for the reason given.
    Open(S),
    /// The record batch cannot be decoded, for the reason given.
    Decode(S),
    /// The reader gave fewer bytes than the declared number, for the reason given.
    ShortRead {
        /// The declared number of bytes.
        declared: usize,
        /// What the reader said.
        detail: S,
    },
    /// The reader gave more bytes than this declared number.
    LongRead(usize),
    /// A required telemetry column does not fit.
    Column(TelemetryColumn, ColumnFault<S>),
    /// A payload type refused the batch, for the reason given.
    Other(S),
}

/// The step of encoding that failed.
#[derive(Clone, Copy, Debug, PartialEq, Eq)]
pub enum EncodeStep {
    /// Building the telemetry record batch.
    BuildTelemetry,
    /// Opening the stream and writing its schema.
    CreateStream,
    /// Writing the record batch.
    WriteBatch,
    /// Writing the end of the stream.
    FinishStream,
    /// A conversion of the payload type's own.
    Other,
}

/// An error of the wire codec.
#[derive(Clone, Debug, PartialEq, Eq)]
pub enum WireError<S> {
    /// A payload that cannot be decoded.
    InvalidPayload(PayloadFault<S>),
    /// A value that cannot be encoded.
    SerializationError {
        /// The step that failed.
        step: EncodeStep,
        /// Why it failed.
        detail: S,
    },
    /// A destination that is too small for the encoded value.
    BufferTooSmall {
        /// The length of the encoded value.
        expected: usize,
        /// The length of the destination.
        actual: usize,
    },
}

/// The error type of the codec's functions.
pub type UWireError = WireError<String>;

/// A payload fault in contracts.
pub type FaultModel = PayloadFault<Seq<char>>;

/// An error in contracts.
pub type ErrorModel = WireError<Seq<char>>;

/// The name of a part of the stream.
pub open spec fn span_name(span: Span) -> Seq<char> {
    match span {
        Span::MessagePrefix => "Arrow IPC message prefix"@,
        Span::ContinuationLength => "Arrow IPC continuation length"@,
        Span::MetadataLength => "Arrow IPC metadata length"@,
        Span::BodyLength => "Arrow IPC body length"@,
    }
}

/// The name of a required column.
pub open spec fn column_name(column: TelemetryColumn) -> Seq<char> {
    match column {
        TelemetryColumn::TimestampsNs => "timestamps_ns"@,
        TelemetryColumn::Channel => "channel"@,
        TelemetryColumn::Value => "value"@,
    }
}

/// The name of the type that a required column must have.
pub open spec fn column_type_name(column: TelemetryColumn) -> Seq<char> {
    match column {
        TelemetryColumn::TimestampsNs => "UInt64"@,
        TelemetryColumn::Channel => "UInt32"@,
        TelemetryColumn::Value => "Float64"@,
    }
}

impl Span {
    /// The name of this part in messages.
    pub fn name(self) -> (name: &'static str)
        ensures
            name@ == span_name(self),
    {
        match self {
            Span::MessagePrefix => "Arrow IPC message prefix",
            Span::ContinuationLength => "Arrow IPC continuation length",
            Span::MetadataLength => "Arrow IPC metadata length",
            Span::BodyLength => "Arrow IPC body length",
        }
    }
}

impl TelemetryColumn {
    /// The name of the column.
    pub fn name(self) -> (name: &'static str)
        ensures
            name@ == column_name(self),
    {
        match self {
            TelemetryColumn::TimestampsNs => "timestamps_ns",
            TelemetryColumn::Channel => "channel",
            TelemetryColumn::Value => "value",
        }
    }

    /// The name of the column's type.
    pub fn data_type(self) -> (name: &'static str)
        ensures
            name@ == column_type_name(self),
    {
        match self {
            TelemetryColumn::TimestampsNs => "UInt64",
            TelemetryColumn::Channel => "UInt32",
            TelemetryColumn::Value => "Float64",
        }
    }
}

impl View for ColumnFault<String> {
    type V = ColumnFault<Seq<char>>;

    open spec fn view(&self) -> ColumnFault<Seq<char>> {
        match *self {
            ColumnFault::Missing => ColumnFault::Missing,
            ColumnFault::WrongType(found) => ColumnFault::WrongType(found@),
            ColumnFault::Nullable => ColumnFault::Nullable,
            ColumnFault::NullValues => ColumnFault::NullValues,
            ColumnFault::Downcast => ColumnFault::Downcast,
        }
    }
}

impl View for PayloadFault<String> {
    type V = FaultModel;

    open spec fn view(&self) -> FaultModel {
        match *self {
            PayloadFault::TooLong(len) => PayloadFault::TooLong(len),
            PayloadFault::Truncated(span) => PayloadFault::Truncated(span),
            PayloadFault::Overflow(span) => PayloadFault::Overflow(span),
            PayloadFault::TrailingBytes => PayloadFault::TrailingBytes,
            PayloadFault::ShortEndMarker => PayloadFault::ShortEndMarker,
            PayloadFault::TruncatedMetadata => PayloadFault::TruncatedMetadata,
            PayloadFault::Metadata(detail) => PayloadFault::Metadata(detail@),
            PayloadFault::MissingBatchHeader => PayloadFault::MissingBatchHeader,
            PayloadFault::Compressed => PayloadFault::Compressed,
            PayloadFault::BodyLength => PayloadFault::BodyLength,
            PayloadFault::TruncatedBody => PayloadFault::TruncatedBody,
            PayloadFault::NoBatch => PayloadFault::NoBatch,
            PayloadFault::ManyBatches => PayloadFault::ManyBatches,
            PayloadFault::Open(detail) => PayloadFault::Open(detail@),
            PayloadFault::Decode(detail) => PayloadFault::Decode(detail@),
            PayloadFault::ShortRead { declared, detail } => PayloadFault::ShortRead {
                declared,
                detail: detail@,
            },
            PayloadFault::LongRead(declared) => PayloadFault::LongRead(declared),
            PayloadFault::Column(column, fault) => PayloadFault::Column(column, fault@),
            PayloadFault::Other(detail) => PayloadFault::Other(detail@),
        }
    }
}

impl View for WireError<String> {
    type V = ErrorModel;

    open spec fn view(&self) -> ErrorModel {
        match *self {
            WireError::InvalidPayload(fault) => WireError::InvalidPayload(fault@),
            WireError::SerializationError { step, detail } => WireError::SerializationError {
                step,
                detail: detail@,
            },
            WireError::BufferTooSmall { expected, actual } => WireError::BufferTooSmall {
                expected,
                actual,
            },
        }
    }
}

/// The text of a column fault.
pub open spec fn column_fault_text(
    column: TelemetryColumn,
    fault: ColumnFault<Seq<char>>,
) -> Seq<char> {
    let required = "telemetry required column `"@ + column_name(column);
    let plain = "telemetry column `"@ + column_name(column);
    match fault {
        ColumnFault::Missing => required + "` is missing"@,
        ColumnFault::WrongType(found) => plain + "` has type "@ + found + ", expected "@
            + column_type_name(column),
        ColumnFault::Nullable => required + "` is declared nullable"@,
        ColumnFault::NullValues => required + "` contains null values"@,
        ColumnFault::Downcast => plain + "` cannot be downcast to its declared type"@,
    }
}

/// The text of a payload fault.
pub open spec fn payload_fault_text(fault: FaultModel) -> Seq<char> {
    match fault {
        PayloadFault::TooLong(len) => "Arrow IPC payload length "@ + decimal(len as nat)
            + " exceeds the "@ + decimal(MAX_ARROW_PAYLOAD_LEN as nat) + "-byte limit"@,
        PayloadFault::Truncated(span) => span_name(span) + " is truncated"@,
        PayloadFault::Overflow(span) => span_name(span) + " overflow"@,
        PayloadFault::TrailingBytes => "Arrow IPC stream has trailing bytes after EOS"@,
        PayloadFault::ShortEndMarker =>
            "Arrow IPC stream must end with the eight-byte continuation/EOS marker"@,
        PayloadFault::TruncatedMetadata => "Arrow IPC stream has truncated message metadata"@,
        PayloadFault::Metadata(detail) => "parse Arrow IPC message metadata: "@ + detail,
        PayloadFault::MissingBatchHeader => "Arrow IPC record-batch metadata is missing"@,
        PayloadFault::Compressed => "compressed Arrow IPC record batches are not supported"@,
        PayloadFault::BodyLength => "Arrow IPC message has a negative or oversized body length"@,
        PayloadFault::TruncatedBody => "Arrow IPC stream has a truncated message body"@,
        PayloadFault::NoBatch => "Arrow IPC stream contains no record batch"@,
        PayloadFault::ManyBatches => "Arrow IPC stream contains more than one record batch"@,
        PayloadFault::Open(detail) => "open Arrow IPC stream: "@ + detail,
        PayloadFault::Decode(detail) => "decode Arrow record batch: "@ + detail,
        PayloadFault::ShortRead { declared, detail } =>
            "Arrow payload reader did not yield the declared "@ + decimal(declared as nat)
                + " bytes: "@ + detail,
        PayloadFault::LongRead(declared) => "Arrow payload reader yielded more than the declared "@
            + decimal(declared as nat) + " bytes"@,
        PayloadFault::Column(column, fault) => column_fault_text(column, fault),
        PayloadFault::Other(detail) => detail,
    }
}

/// The text of an encoding failure.
pub open spec fn encode_text(step: EncodeStep, detail: Seq<char>) -> Seq<char> {
    match step {
        EncodeStep::BuildTelemetry => "build telemetry record batch: "@ + detail,
        EncodeStep::CreateStream => "create Arrow IPC stream: "@ + detail,
        EncodeStep::WriteBatch => "write Arrow record batch: "@ + detail,
        EncodeStep::FinishStream => "finish Arrow IPC stream: "@ + detail,
        EncodeStep::Other => detail,
    }
}

/// The text that an error carries. A destination that is too small is described by
/// its two lengths alone.
pub open spec fn error_text(error: ErrorModel) -> Option<Seq<char>> {
    match error {
        WireError::InvalidPayload(fault) => Some(payload_fault_text(fault)),
        WireError::SerializationError { step, detail } => Some(encode_text(step, detail)),
        WireError::BufferTooSmall { .. } => None,
    }
}

fn column_fault_message(column: TelemetryColumn, fault: &ColumnFault<String>) -> (text: String)
    ensures
        text@ == column_fault_text(column, fault@),
{
    let required = "telemetry required column `";
    let plain = "telemetry column `";
    match fault {
        ColumnFault::Missing => join(required, column.name(), "` is missing"),
        ColumnFault::WrongType(found) => {
            let mut text = join(plain, column.name(), "` has type ");
            text.append(found.as_str());
            text.append(", expected ");
            text.append(column.data_type());
            text
        },
        ColumnFault::Nullable => join(required, column.name(), "` is declared nullable"),
        ColumnFault::NullValues => join(required, column.name(), "` contains null values"),
        ColumnFault::Downcast => join(
            plain,
            column.name(),
            "` cannot be downcast to its declared type",
        ),
    }
}

impl PayloadFault<String> {
    /// The fault in words.
    pub fn message(&self) -> (text: String)
        ensures
            text@ == payload_fault_text(self@),
    {
        match self {
            PayloadFault::TooLong(len) => {
                let mut text = join(
                    "Arrow IPC payload length ",
                    decimal_text(*len).as_str(),
                    " exceeds the ",
                );
                text.append(decimal_text(MAX_ARROW_PAYLOAD_LEN).as_str());
                text.append("-byte limit");
                text
            },
            PayloadFault::Truncated(span) => pair(span.name(), " is truncated"),
            PayloadFault::Overflow(span) => pair(span.name(), " overflow"),
            PayloadFault::TrailingBytes =>
                "Arrow IPC stream has trailing bytes after EOS".to_string(),
            PayloadFault::ShortEndMarker =>
                "Arrow IPC stream must end with the eight-byte continuation/EOS marker".to_string(),
            PayloadFault::TruncatedMetadata =>
                "Arrow IPC stream has truncated message metadata".to_string(),
            PayloadFault::Metadata(detail) =>
                pair("parse Arrow IPC message metadata: ", detail.as_str()),
            PayloadFault::MissingBatchHeader =>
                "Arrow IPC record-batch metadata is missing".to_string(),
            PayloadFault::Compressed =>
                "compressed Arrow IPC record batches are not supported".to_string(),
            PayloadFault::BodyLength =>
                "Arrow IPC message has a negative or oversized body length".to_string(),
            PayloadFault::TruncatedBody =>
                "Arrow IPC stream has a truncated message body".to_string(),
            PayloadFault::NoBatch => "Arrow IPC stream contains no record batch".to_string(),
            PayloadFault::ManyBatches =>
                "Arrow IPC stream contains more than one record batch".to_string(),
            PayloadFault::Open(detail) => pair("open Arrow IPC stream: ", detail.as_str()),
            PayloadFault::Decode(detail) => pair("decode Arrow record batch: ", detail.as_str()),
            PayloadFault::ShortRead { declared, detail } => {
                let mut text = join(
                    "Arrow payload reader did not yield the declared ",
                    decimal_text(*declared).as_str(),
                    " bytes: ",
                );
                text.append(detail.as_str());
                text
            },
            PayloadFault::LongRead(declared) => join(
                "Arrow payload reader yielded more than the declared ",
                decimal_text(*declared).as_str(),
                " bytes",
            ),
            PayloadFault::Column(column, fault) => column_fault_message(*column, fault),
            PayloadFault::Other(detail) => detail.clone(),
        }
    }
}

fn encode_message(step: EncodeStep, detail: &String) -> (text: String)
    ensures
        text@ == encode_text(step, detail@),
{
    match step {
        EncodeStep::BuildTelemetry => pair("build telemetry record batch: ", detail.as_str()),
        EncodeStep::CreateStream => pair("create Arrow IPC stream: ", detail.as_str()),
        EncodeStep::WriteBatch => pair("write Arrow record batch: ", detail.as_str()),
        EncodeStep::FinishStream => pair("finish Arrow IPC stream: ", detail.as_str()),
        EncodeStep::Other => detail.clone(),
    }
}

impl WireError<String> {
    /// The error in words, where it carries any.
    pub fn message(&self) -> (text: Option<String>)
        ensures
            match text {
                Some(words) => error_text(self@) == Some(words@),
                None => error_text(self@) is None,
            },
    {
        match self {
            WireError::InvalidPayload(fault) => Some(fault.message()),
            WireError::SerializationError { step, detail } => Some(encode_message(*step, detail)),
            WireError::BufferTooSmall { .. } => None,
        }
    }
}

} // verus!

//! What faults and errors say, in full, and the names that the library gives out.
use vstd::prelude::*;

use crate::bounded::WriteFault;
use crate::error::{
    ColumnFault, EncodeStep, PayloadFault, Span, TelemetryColumn, UWireError, WireError,
};
use crate::identity::{PayloadEncoding, WireIdentity};
use crate::text::{decimal, is_decimal, lemma_decimal};
use crate::wire::ArrowWire;
use crate::MAX_ARROW_PAYLOAD_LEN;

verus! {

/// Whether a text is the given texts with a number in decimal between them.
pub open spec fn says_number(text: Seq<char>, front: Seq<char>, n: int, back: Seq<char>) -> bool {
    exists|digits: Seq<char>| #[trigger] is_decimal(digits, n) && text == front + digits + back
}

/// The name of a required column.
pub open spec fn spelled(column: TelemetryColumn) -> Seq<char> {
    match column {
        TelemetryColumn::TimestampsNs => "timestamps_ns"@,
        TelemetryColumn::Channel => "channel"@,
        TelemetryColumn::Value => "value"@,
    }
}

/// The required columns and their types are called by their names in Arrow.
pub proof fn law_column_names(column: TelemetryColumn)
    ensures
        forall|name: &'static str| #[trigger]
            call_ensures(TelemetryColumn::name, (column,), name) ==> name@ == spelled(column),
        forall|name: &'static str| #[trigger]
            call_ensures(TelemetryColumn::data_type, (column,), name) ==> name@ == match column {
                TelemetryColumn::TimestampsNs => "UInt64"@,
                TelemetryColumn::Channel => "UInt32"@,
                TelemetryColumn::Value => "Float64"@,
            },
{
}

/// What a fault of a required column says: which column it is, and, where its type is wrong,
/// which type it has and which it should have.
pub proof fn law_column_words(
    column: TelemetryColumn,
    fault: ColumnFault<String>,
    text: String,
)
    requires
        call_ensures(
            PayloadFault::<String>::message,
            (&PayloadFault::Column(column, fault),),
            text,
        ),
    ensures
        match fault {
            ColumnFault::Missing => text@ == "telemetry required column `"@ + spelled(column)
                + "` is missing"@,
            ColumnFault::WrongType(found) => text@ == "telemetry column `"@ + spelled(column)
                + "` has type "@ + found@ + ", expected "@ + match column {
                TelemetryColumn::TimestampsNs => "UInt64"@,
                TelemetryColumn::Channel => "UInt32"@,
                TelemetryColumn::Value => "Float64"@,
            },
            ColumnFault::Nullable => text@ == "telemetry required column `"@ + spelled(column)
                + "` is declared nullable"@,
            ColumnFault::NullValues => text@ == "telemetry required column `"@ + spelled(column)
                + "` contains null values"@,
            ColumnFault::Downcast => text@ == "telemetry column `"@ + spelled(column)
                + "` cannot be downcast to its declared type"@,
        },
{
}

/// What a fault of the framing says, where it says nothing of its own.
pub proof fn law_framing_words(fault: PayloadFault<String>, text: String)
    requires
        call_ensures(PayloadFault::<String>::message, (&fault,), text),
    ensures
        fault is TrailingBytes ==> text@ == "Arrow IPC stream has trailing bytes after EOS"@,
        fault is ShortEndMarker ==> text@
            == "Arrow IPC stream must end with the eight-byte continuation/EOS marker"@,
        fault is TruncatedMetadata ==> text@ == "Arrow IPC stream has truncated message metadata"@,
        fault is MissingBatchHeader ==> text@ == "Arrow IPC record-batch metadata is missing"@,
        fault is Compressed ==> text@ == "compressed Arrow IPC record batches are not supported"@,
        fault is BodyLength ==> text@
            == "Arrow IPC message has a negative or oversized body length"@,
        fault is TruncatedBody ==> text@ == "Arrow IPC stream has a truncated message body"@,
        fault is NoBatch ==> text@ == "Arrow IPC stream contains no record batch"@,
        fault is ManyBatches ==> text@ == "Arrow IPC stream contains more than one record batch"@,
{
}

/// What is said of a part of the stream that is cut off, or whose end is no offset.
pub proof fn law_span_words(span: Span, text: String)
    ensures
        call_ensures(PayloadFault::<String>::message, (&PayloadFault::Truncated(span),), text)
            ==> text@ == match span {
            Span::MessagePrefix => "Arrow IPC message prefix"@,
            Span::ContinuationLength => "Arrow IPC continuation length"@,
            Span::MetadataLength => "Arrow IPC metadata length"@,
            Span::BodyLength => "Arrow IPC body length"@,
        } + " is truncated"@,
        call_ensures(PayloadFault::<String>::message, (&PayloadFault::Overflow(span),), text)
            ==> text@ == match span {
            Span::MessagePrefix => "Arrow IPC message prefix"@,
            Span::ContinuationLength => "Arrow IPC continuation length"@,
            Span::MetadataLength => "Arrow IPC metadata length"@,
            Span::BodyLength => "Arrow IPC body length"@,
        } + " overflow"@,
{
}

/// A reason that came from outside is said as it came, behind what failed for it.
pub proof fn law_reason_words(reason: String, text: String)
    ensures
        call_ensures(PayloadFault::<String>::message, (&PayloadFault::Metadata(reason),), text)
            ==> text@ == "parse Arrow IPC message metadata: "@ + reason@,
        call_ensures(PayloadFault::<String>::message, (&PayloadFault::Open(reason),), text)
            ==> text@ == "open Arrow IPC stream: "@ + reason@,
        call_ensures(PayloadFault::<String>::message, (&PayloadFault::Decode(reason),), text)
            ==> text@ == "decode Arrow record batch: "@ + reason@,
        call_ensures(PayloadFault::<String>::message, (&PayloadFault::Other(reason),), text)
            ==> text@ == reason@,
{
}

proof fn lemma_limit()
    ensures
        decimal(MAX_ARROW_PAYLOAD_LEN as nat) == "67108864"@,
{
    reveal_strlit("67108864");
    reveal_with_fuel(decimal, 9);
    assert(decimal(67_108_864) =~= "67108864"@);
}

/// What is said of a length names the length, and the limit where it is over the limit.
pub proof fn law_length_words(len: usize, reason: String, text: String)
    ensures
        call_ensures(PayloadFault::<String>::message, (&PayloadFault::TooLong(len),), text)
            ==> says_number(
            text@,
            "Arrow IPC payload length "@,
            len as int,
            " exceeds the "@ + "67108864"@ + "-byte limit"@,
        ),
        call_ensures(
            PayloadFault::<String>::message,
            (&PayloadFault::ShortRead { declared: len, detail: reason },),
            text,
        ) ==> says_number(
            text@,
            "Arrow payload reader did not yield the declared "@,
            len as int,
            " bytes: "@ + reason@,
        ),
        call_ensures(PayloadFault::<String>::message, (&PayloadFault::LongRead(len),), text)
            ==> says_number(
            text@,
            "Arrow payload reader yielded more than the declared "@,
            len as int,
            " bytes"@,
        ),
        call_ensures(WriteFault::message, (WriteFault::Limit(len),), text) ==> says_number(
            text@,
            "Arrow IPC payload exceeds the "@,
            len as int,
            "-byte limit"@,
        ),
        call_ensures(WriteFault::message, (WriteFault::Overflow,), text) ==> text@
            == "Arrow IPC payload length overflow"@,
{
    lemma_decimal(len as nat);
    lemma_limit();
    let digits = decimal(len as nat);
    assert(is_decimal(digits, len as int));
    assert("Arrow IPC payload length "@ + digits + " exceeds the "@ + "67108864"@ + "-byte limit"@
        =~= "Arrow IPC payload length "@ + digits + (" exceeds the "@ + "67108864"@
        + "-byte limit"@));
    assert("Arrow payload reader did not yield the declared "@ + digits + " bytes: "@ + reason@
        =~= "Arrow payload reader did not yield the declared "@ + digits + (" bytes: "@ + reason@));
}

/// An error says what its payload fault says, or which step of encoding failed for which reason. A
/// destination that is too small is told by its lengths alone.
pub proof fn law_error_words(error: UWireError, text: Option<String>)
    requires
        call_ensures(WireError::<String>::message, (&error,), text),
    ensures
        match error {
            WireError::InvalidPayload(fault) => text is Some && forall|words: String| #[trigger]
                call_ensures(PayloadFault::<String>::message, (&fault,), words) ==> words@
                    == text->Some_0@,
            WireError::SerializationError { step, detail } => text is Some && text->Some_0@
                == match step {
                EncodeStep::BuildTelemetry => "build telemetry record batch: "@ + detail@,
                EncodeStep::CreateStream => "create Arrow IPC stream: "@ + detail@,
                EncodeStep::WriteBatch => "write Arrow record batch: "@ + detail@,
                EncodeStep::FinishStream => "finish Arrow IPC stream: "@ + detail@,
                EncodeStep::Other => detail@,
            },
            WireError::BufferTooSmall { .. } => text is None,
        },
{
}

/// The identities, names and encoding under which the wire is known. The two identities differ,
/// both are in the local/experimental range, and their literal forms say so.
pub proof fn law_identities(wire: WireIdentity, family: WireIdentity)
    requires
        call_ensures(ArrowWire::wire_id, (), wire),
        call_ensures(ArrowWire::payload_family_id, (), family),
    ensures
        wire.literal_id@ == "org.eclipse.uprotocol.wire.arrow-ipc-stream.experimental"@,
        wire.compact_id == 0xA201,
        family.literal_id@ == "org.eclipse.uprotocol.payload.arrow-ipc-stream.experimental"@,
        family.compact_id == 0xA202,
        wire.compact_id != family.compact_id,
        0x8000 <= wire.compact_id <= 0xFFFE,
        0x8000 <= family.compact_id <= 0xFFFE,
{
}

/// An identity gives out the forms that it has.
pub proof fn law_identity_forms(identity: WireIdentity, literal_id: &'static str, compact_id: u16)
    ensures
        call_ensures(WireIdentity::literal_id, (&identity,), literal_id) ==> literal_id@
            == identity.literal_id@,
        call_ensures(WireIdentity::compact_id, (&identity,), compact_id) ==> compact_id
            == identity.compact_id,
{
}

/// The name of the payload format, its encoding identifier and its media type.
pub proof fn law_encoding_names(name: &'static str, encoding: PayloadEncoding)
    requires
        call_ensures(ArrowWire::name, (), name),
        call_ensures(ArrowWire::encoding, (), encoding),
    ensures
        name@ == "arrow-ipc-stream"@,
        encoding.encoding_id@ == "up.arrow-ipc-stream"@,
        encoding.content_type@ == "application/vnd.apache.arrow.stream"@,
{
}

} // verus!

//! What the codec reads of an IPC message's metadata.
use vstd::prelude::*;

verus! {

/// The header tag of a schema message.
pub const SCHEMA_HEADER: u8 = 1;

/// The header tag of a message with dictionary values.
pub const DICTIONARY_HEADER: u8 = 2;

/// The header tag of a record-batch message.
pub const RECORD_BATCH_HEADER: u8 = 3;

/// A top-level field of a schema message.
#[derive(Clone, Copy, Debug, PartialEq, Eq)]
pub struct SchemaField {
    /// The tag of the field's type.
    pub type_tag: u8,
    /// Whether the field's values are encoded through a dictionary.
    pub dictionary: bool,
}

/// A buffer of a record batch, as an offset into the message body and a length.
#[derive(Clone, Copy, Debug, PartialEq, Eq)]
pub struct BufferSpan {
    /// Where the buffer starts in the body.
    pub offset: i64,
    /// How many bytes it has.
    pub length: i64,
}

/// The header of a record-batch message.
#[derive(Clone, Debug, PartialEq, Eq)]
pub struct BatchHeader {
    /// Whether the header names a compression of the body.
    pub compressed: bool,
    /// The buffers of the batch, in order.
    pub buffers: Vec<BufferSpan>,
}

/// The metadata of an IPC message.
#[derive(Clone, Debug, PartialEq, Eq)]
pub struct IpcMessage {
    /// The tag of the message's header.
    pub header: u8,
    /// The declared length of the message body.
    pub body_length: i64,
    /// The header of a record batch, if the message has one.
    pub batch: Option<BatchHeader>,
    /// The top-level fields of a schema, if the message has one.
    pub schema: Option<Vec<SchemaField>>,
}

/// A record-batch header in contracts.
pub ghost struct BatchHeaderModel {
    pub compressed: bool,
    pub buffers: Seq<BufferSpan>,
}

/// Message metadata in contracts.
pub ghost struct MessageModel {
    pub header: u8,
    pub body_length: i64,
    pub batch: Option<BatchHeaderModel>,
    pub schema: Option<Seq<SchemaField>>,
}

impl View for BatchHeader {
    type V = BatchHeaderModel;

    open spec fn view(&self) -> BatchHeaderModel {
        BatchHeaderModel { compressed: self.compressed, buffers: self.buffers@ }
    }
}

impl View for IpcMessage {
    type V = MessageModel;

    open spec fn view(&self) -> MessageModel {
        MessageModel {
            header: self.header,
            body_length: self.body_length,
            batch: match self.batch {
                Some(header) => Some(header@),
                None => None,
            },
            schema: match self.schema {
                Some(fields) => Some(fields@),
                None => None,
            },
        }
    }
}

/// What `arrow_ipc::root_as_message` finds in the given bytes: the message's header tag, body
/// length, record-batch header and schema fields, or the text of its error.
pub uninterp spec fn message_info(metadata: Seq<u8>) -> Result<MessageModel, Seq<char>>;

/// Parses message metadata with `arrow_ipc::root_as_message` and takes from the message what
/// the codec reads: the tag in `header_type`; `bodyLength`; from `header_as_record_batch`
/// whether it has a `compression`, and its `buffers`; from `header_as_schema` its `fields`, of
/// each the tag in `type_type` and whether it has a `dictionary` (no buffers or fields where the
/// header has no such list). The flatbuffer verifier behind it looks at the bytes alone, so the
/// outcome depends on nothing else.
#[verifier::external_body]
pub(crate) fn read_message(metadata: &[u8]) -> (message: Result<IpcMessage, String>)
    ensures
        match message {
            Ok(found) => message_info(metadata@) == Ok::<MessageModel, Seq<char>>(found@),
            Err(detail) => message_info(metadata@) == Err::<MessageModel, Seq<char>>(detail@),
        },
{
    let message = arrow_ipc::root_as_message(metadata).map_err(|error| error.to_string())?;
    let batch = message.header_as_record_batch().map(|header| BatchHeader {
        compressed: header.compression().is_some(),
        buffers: header.buffers().into_iter().flatten().map(
            |b| BufferSpan { offset: b.offset(), length: b.length() }).collect(),
    });
    let schema = message.header_as_schema().map(|header| header.fields().into_iter().flatten().map(
        |f| SchemaField { type_tag: f.type_type().0, dictionary: f.dictionary().is_some() },
    ).collect());
    let (header, body_length) = (message.header_type().0, message.bodyLength());
    Ok(IpcMessage { header, body_length, batch, schema })
}

} // verus!

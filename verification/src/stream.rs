//! Reading and writing the record batch of a stream.
use arrow_ipc::reader::StreamReader;
use arrow_ipc::writer::StreamWriter;
use vstd::prelude::*;

use crate::batch::{batch_model, plain_schema, BatchModel, ColumnModel, ColumnType, RecordBatch};
use crate::bounded::{write_fault_text, BoundedWriter, WriteFault};
use crate::envelope::{envelope, ipc_eos, FoundStream, Site, StreamSite};
use crate::framing::{frame_bytes, frame_site, stream_bytes, Frame};
use crate::message::{
    message_info, BufferSpan, SchemaField, DICTIONARY_HEADER, RECORD_BATCH_HEADER, SCHEMA_HEADER,
};
use crate::MAX_ARROW_PAYLOAD_LEN;

verus! {

/// `arrow_ipc::reader::StreamReader`.
#[verifier::external_type_specification]
#[verifier::external_body]
#[verifier::reject_recursive_types(R)]
pub struct ExStreamReader<R>(StreamReader<R>);

/// `arrow_ipc::writer::StreamWriter`.
#[verifier::external_type_specification]
#[verifier::external_body]
#[verifier::reject_recursive_types(W)]
pub struct ExStreamWriter<W>(StreamWriter<W>);

/// The tag of integer types.
pub const INT_TAG: u8 = 2;

/// The tag of floating-point types.
pub const FLOATING_POINT_TAG: u8 = 3;

/// The tag of byte strings with 32-bit offsets.
pub const BINARY_TAG: u8 = 4;

/// The tag of strings with 32-bit offsets.
pub const UTF8_TAG: u8 = 5;

/// The tag of booleans. The tags from here to that of intervals are those of booleans,
/// decimals, dates, times, timestamps and intervals.
pub const BOOL_TAG: u8 = 6;

/// The tag of intervals.
pub const INTERVAL_TAG: u8 = 11;

/// The tag of durations.
pub const DURATION_TAG: u8 = 18;

/// The tag of byte strings with 64-bit offsets.
pub const LARGE_BINARY_TAG: u8 = 19;

/// The tag of strings with 64-bit offsets.
pub const LARGE_UTF8_TAG: u8 = 20;

/// How a column's values are laid out in buffers.
#[derive(Clone, Copy, Debug, PartialEq, Eq)]
pub enum ColumnLayout {
    /// A validity buffer and a buffer of fixed-width values.
    Fixed,
    /// A validity buffer, a buffer of 32-bit offsets and a buffer of bytes.
    Offsets32,
    /// A validity buffer, a buffer of 64-bit offsets and a buffer of bytes.
    Offsets64,
    /// Any other layout.
    Other,
}

/// Whether `StreamReader::try_new` opens a stream, or the text of its error.
pub uninterp spec fn stream_opening(src: Seq<u8>) -> Result<(), Seq<char>>;

/// Whether `StreamReader::try_new` comes back on a stream: it panics on some schemas.
pub uninterp spec fn opening_returns(src: Seq<u8>) -> bool;

/// What a `StreamReader` on a stream yields from its first `next` to its last, or to its first
/// error: batches, and the text of the error.
pub uninterp spec fn stream_items(src: Seq<u8>) -> Seq<Result<BatchModel, Seq<char>>>;

/// Whether a `StreamReader` on a stream comes to its end: `next` panics on some column
/// layouts and contents.
pub uninterp spec fn reading_returns(src: Seq<u8>) -> bool;

/// The stream that a reader was opened on.
pub uninterp spec fn reader_source(reader: StreamReader<&[u8]>) -> Seq<u8>;

/// What a reader has still to yield.
pub uninterp spec fn reader_pending(
    reader: StreamReader<&[u8]>,
) -> Seq<Result<BatchModel, Seq<char>>>;

/// The bytes of the schema message for a batch, or the text of the error that keeps a
/// `StreamWriter` from writing one.
pub uninterp spec fn schema_message(batch: BatchModel) -> Result<Seq<u8>, Seq<char>>;

/// The bytes of the messages that a `StreamWriter` writes for a batch behind its schema
/// message, or the text of the error that keeps it from writing them.
pub uninterp spec fn batch_messages(batch: BatchModel) -> Result<Seq<u8>, Seq<char>>;

/// Whether a `StreamWriter` on a sink with the given limit comes back from writing a batch and
/// its schema: flatbuffers panics where the metadata of a message takes two gigabytes.
pub uninterp spec fn writing_returns(batch: BatchModel, limit: usize) -> bool;

/// The bytes that a stream writer has written.
pub uninterp spec fn writer_written(writer: StreamWriter<BoundedWriter>) -> Seq<u8>;

/// The limit of the sink under a stream writer.
pub uninterp spec fn writer_limit(writer: StreamWriter<BoundedWriter>) -> usize;

/// The layout of a field's column. Fields whose values are encoded through a dictionary, and
/// those of a type that is nested, a view or of fixed-size binaries, have another one.
pub open spec fn field_layout(field: SchemaField) -> ColumnLayout {
    if field.dictionary {
        ColumnLayout::Other
    } else if field.type_tag == UTF8_TAG || field.type_tag == BINARY_TAG {
        ColumnLayout::Offsets32
    } else if field.type_tag == LARGE_UTF8_TAG || field.type_tag == LARGE_BINARY_TAG {
        ColumnLayout::Offsets64
    } else if field.type_tag == INT_TAG || field.type_tag == FLOATING_POINT_TAG || BOOL_TAG
        <= field.type_tag <= INTERVAL_TAG || field.type_tag == DURATION_TAG {
        ColumnLayout::Fixed
    } else {
        ColumnLayout::Other
    }
}

/// The layouts of the columns of a schema.
pub open spec fn field_layouts(fields: Seq<SchemaField>) -> Seq<ColumnLayout> {
    fields.map_values(|field: SchemaField| field_layout(field))
}

/// Whether all columns of a schema have layouts of fixed-width values, or of bytes with offsets.
pub open spec fn plain_fields(fields: Seq<SchemaField>) -> bool {
    forall|i: int| 0 <= i < fields.len() ==> !(field_layout(#[trigger] fields[i]) is Other)
}

/// Whether all schemas of a stream have plain fields.
pub open spec fn plain_fields_only(schemas: Seq<Seq<SchemaField>>) -> bool {
    forall|i: int| 0 <= i < schemas.len() ==> plain_fields(#[trigger] schemas[i])
}

/// Finds the layout of a field's column.
pub fn layout_of(field: SchemaField) -> (layout: ColumnLayout)
    ensures
        layout == field_layout(field),
{
    let tag: u8 = field.type_tag;
    if field.dictionary {
        ColumnLayout::Other
    } else if tag == UTF8_TAG || tag == BINARY_TAG {
        ColumnLayout::Offsets32
    } else if tag == LARGE_UTF8_TAG || tag == LARGE_BINARY_TAG {
        ColumnLayout::Offsets64
    } else if tag == INT_TAG || tag == FLOATING_POINT_TAG || (BOOL_TAG <= tag && tag
        <= INTERVAL_TAG) || tag == DURATION_TAG {
        ColumnLayout::Fixed
    } else {
        ColumnLayout::Other
    }
}

/// Whether a buffer lies in a body of the given length.
pub open spec fn in_body(buffer: BufferSpan, body_length: int) -> bool {
    &&& 0 <= buffer.offset
    &&& 0 <= buffer.length
    &&& buffer.offset + buffer.length <= body_length
}

/// The number of buffers of a column.
pub open spec fn buffer_count(layout: ColumnLayout) -> int {
    match layout {
        ColumnLayout::Fixed => 2,
        _ => 3,
    }
}

/// The size of an offset, or one where a column has none.
pub open spec fn offset_width(layout: ColumnLayout) -> int {
    match layout {
        ColumnLayout::Offsets32 => 4,
        ColumnLayout::Offsets64 => 8,
        _ => 1,
    }
}

/// Whether the offset buffers among `buffers`, where the columns' buffers start at `at`,
/// hold whole offsets.
pub open spec fn offsets_whole(
    layouts: Seq<ColumnLayout>,
    buffers: Seq<BufferSpan>,
    at: int,
) -> bool
    decreases layouts.len(),
{
    layouts.len() == 0 || {
        &&& at + 1 < buffers.len() ==> buffers[at + 1].length as int % offset_width(layouts[0]) == 0
        &&& offsets_whole(layouts.drop_first(), buffers, at + buffer_count(layouts[0]))
    }
}

/// Whether a stream is of those whose opening and reading are known to return: all its
/// schemas have plain fields, every buffer lies in the body, and the offset buffers of the first
/// schema's columns hold whole offsets.
pub open spec fn reads_plainly(stream: StreamSite) -> bool {
    &&& plain_fields_only(stream.schemas)
    &&& forall|i: int|
        0 <= i < stream.batch.buffers.len() ==> in_body(
            #[trigger] stream.batch.buffers[i],
            stream.batch.body_length,
        )
    &&& stream.schemas.len() > 0 ==> offsets_whole(
        field_layouts(stream.schemas[0]),
        stream.batch.buffers,
        0,
    )
}

/// Whether a stream can be opened without a panic.
pub open spec fn opens(src: Seq<u8>) -> bool {
    ||| opening_returns(src)
    ||| envelope(src) matches Ok(stream) && plain_fields_only(stream.schemas)
}

/// Whether a stream's batch can be read without a panic. The stream keeps the size limit: Arrow
/// takes a metadata length of 2^31 or more for an error, and would then go on inside that metadata.
pub open spec fn reads_back(src: Seq<u8>) -> bool {
    &&& src.len() <= MAX_ARROW_PAYLOAD_LEN
    &&& envelope(src) matches Ok(stream)
    &&& reading_returns(src) || reads_plainly(stream)
}

/// Opens a stream with `StreamReader::try_new`, without a projection. It panics on a schema
/// with a union of more than 128 children without type ids, and so comes back where the schema
/// has no nested field at the top. Its outcome depends on the bytes alone (short of memory for
/// them).
#[verifier::external_body]
pub(crate) fn open_stream(src: &[u8]) -> (reader: Result<StreamReader<&[u8]>, String>)
    requires
        opens(src@),
    ensures
        match reader {
            Ok(opened) => {
                &&& stream_opening(src@) is Ok
                &&& opening_returns(src@)
                &&& reader_source(opened) == src@
                &&& reader_pending(opened) == stream_items(src@)
            },
            Err(detail) => {
                &&& stream_opening(src@) == Err::<(), Seq<char>>(detail@)
                &&& opening_returns(src@)
            },
        },
{
    StreamReader::try_new(src, None).map_err(|error| error.to_string())
}

/// `StreamReader::next`: the next of what the reader has to yield. It may panic on a record
/// batch with a buffer that leaves the message body, with an offset buffer that ends inside an
/// offset, or with nested, view, fixed-size-binary or dictionary columns, and on a further schema
/// with a nested field, so those are left out unless reading is known to return. A stream over the
/// size limit is left out altogether, and so is a reader that has yielded an error, since it may
/// stand inside a message. A reader that yields nothing has come to the end.
#[verifier::external_body]
pub(crate) fn next_batch(reader: &mut StreamReader<&[u8]>) -> (item: Option<
    Result<RecordBatch, String>,
>)
    requires
        reads_back(reader_source(*old(reader))),
    ensures
        match item {
            None => {
                &&& reader_source(*final(reader)) == reader_source(*old(reader))
                &&& reader_pending(*old(reader)).len() == 0
                &&& reader_pending(*final(reader)) == reader_pending(*old(reader))
                &&& reading_returns(reader_source(*old(reader)))
            },
            Some(Ok(batch)) => {
                &&& reader_source(*final(reader)) == reader_source(*old(reader))
                &&& reader_pending(*old(reader)).len() > 0
                &&& reader_pending(*old(reader))[0] == Ok::<BatchModel, Seq<char>>(
                    batch_model(batch),
                )
                &&& reader_pending(*final(reader)) == reader_pending(*old(reader)).drop_first()
            },
            Some(Err(detail)) => {
                &&& reader_pending(*old(reader)).len() > 0
                &&& reader_pending(*old(reader))[0] == Err::<BatchModel, Seq<char>>(detail@)
            },
        },
{
    reader.next().map(|item| item.map(RecordBatch).map_err(|error| error.to_string()))
}

/// Whether a batch has a plain schema and at least one column, and its arrays are of the
/// array types that their data types call for, with no null among the values.
pub open spec fn plain_batch(batch: BatchModel) -> bool {
    &&& plain_schema(batch)
    &&& batch.columns.len() > 0
    &&& forall|i: int| 0 <= i < batch.columns.len() ==> plain_values(#[trigger] batch.columns[i])
}

/// Whether a column's array is of the array type that its data type calls for, with no null
/// among the values.
pub open spec fn plain_values(column: ColumnModel) -> bool {
    &&& column.null_count == 0
    &&& match column.data_type {
        ColumnType::UInt64 => column.values is UInt64,
        ColumnType::UInt32 => column.values is UInt32,
        ColumnType::Float64 => column.values is Float64,
        ColumnType::Other => false,
    }
}

/// Whether a batch can be written to a sink with the given limit without a panic.
pub open spec fn writes(batch: BatchModel, limit: usize) -> bool {
    plain_schema(batch) || writing_returns(batch, limit)
}

/// The text of the error that a stream writer gives where its sink refuses a write.
pub open spec fn limit_text(limit: usize) -> Seq<char> {
    "Io error: "@ + write_fault_text(WriteFault::Limit(limit))
}

/// Whether a message is one that a stream writer writes: with a continuation marker, and, if
/// its metadata parses, with the given header tag and the body that the metadata announces,
/// and not compressed.
pub open spec fn written_frame(frame: Frame, header: u8) -> bool {
    &&& frame.marked
    &&& 0 < frame.metadata.len() <= u32::MAX
    &&& message_info(frame.metadata) matches Ok(message) ==> {
        &&& message.header == header
        &&& message.body_length == frame.body.len()
        &&& header == RECORD_BATCH_HEADER ==> (message.batch matches Some(batch)
            && !batch.compressed)
    }
}

/// Whether a message is that of a plain schema: its metadata parses, and the columns have
/// layouts of fixed-width values.
pub open spec fn is_fixed_schema(frame: Frame) -> bool {
    &&& message_info(frame.metadata) matches Ok(message)
    &&& message.schema matches Some(fields)
    &&& forall|i: int| 0 <= i < fields.len() ==> field_layout(#[trigger] fields[i]) is Fixed
}

/// Whether `bytes` is a schema message.
pub open spec fn is_schema_message(bytes: Seq<u8>, plain: bool) -> bool {
    exists|frame: Frame|
        bytes == #[trigger] frame_bytes(frame) && written_frame(frame, SCHEMA_HEADER)
            && frame.body.len() == 0 && (plain ==> is_fixed_schema(frame))
}

/// Whether messages are those of a batch: any number of dictionary batches and a record batch.
pub open spec fn are_batch_frames(frames: Seq<Frame>) -> bool {
    &&& frames.len() > 0
    &&& forall|i: int|
        0 <= i < frames.len() - 1 ==> written_frame(
            #[trigger] frames[i],
            DICTIONARY_HEADER,
        )
    &&& written_frame(frames.last(), RECORD_BATCH_HEADER)
}

/// Whether a message is that of a plain batch: its metadata parses, and its buffers lie in its
/// body.
pub open spec fn is_plain_frame(frame: Frame) -> bool {
    &&& message_info(frame.metadata) is Ok
    &&& frame_site(frame) matches Site::Batch(site) ==> forall|i: int|
        0 <= i < site.buffers.len() ==> in_body(#[trigger] site.buffers[i], site.body_length)
}

/// Whether `bytes` are the messages of a batch, and of a plain batch only one.
pub open spec fn are_batch_messages(bytes: Seq<u8>, plain: bool) -> bool {
    exists|frames: Seq<Frame>|
        bytes + ipc_eos() == #[trigger] stream_bytes(frames) && are_batch_frames(frames) && (plain
            ==> frames.len() == 1 && is_plain_frame(frames[0]))
}

/// Opens a stream with `StreamWriter::try_new`, which writes the schema message for the
/// batch's schema to the sink, in pieces, each through `write_all`. Where the pieces do not
/// fit the sink, the sink's error comes back as an `ArrowError::IoError`. The default options
/// fix everything else, so the message depends on the schema alone. It is one frame without a
/// body, and for a plain schema its metadata parses, with a type of fixed width in each field;
/// the flatbuffer verifier has limits on depth and number of tables that other schemas can pass.
/// A schema that takes two gigabytes, on which flatbuffers panics, is left out unless writing
/// is known to return.
#[verifier::external_body]
pub(crate) fn create_stream(output: BoundedWriter, batch: &RecordBatch) -> (writer: Result<
    StreamWriter<BoundedWriter>,
    String,
>)
    requires
        output@ == Seq::<u8>::empty(),
        output.limit() <= MAX_ARROW_PAYLOAD_LEN,
        writes(batch_model(*batch), output.limit()),
    ensures
        match writer {
            Ok(opened) => {
                &&& schema_message(batch_model(*batch)) == Ok::<Seq<u8>, Seq<char>>(
                    writer_written(opened),
                )
                &&& writer_limit(opened) == output.limit()
                &&& writer_written(opened).len() <= output.limit()
                &&& is_schema_message(writer_written(opened), plain_schema(batch_model(*batch)))
            },
            Err(detail) => {
                &&& match schema_message(batch_model(*batch)) {
                    Ok(bytes) => bytes.len() > output.limit() && detail@ == limit_text(
                        output.limit(),
                    ),
                    Err(own) => detail@ == own,
                }
                &&& plain_schema(batch_model(*batch)) ==> schema_message(batch_model(*batch)) is Ok
                &&& writing_returns(batch_model(*batch), output.limit())
            },
        },
{
    StreamWriter::try_new(output, &batch.0.schema()).map_err(|error| error.to_string())
}

/// Writes the batch with `StreamWriter::write`: dictionary messages where it has
/// dictionaries, then its record-batch message. A batch that cannot be encoded may have
/// filled the sink with dictionaries before that shows. Each message is a frame with the body
/// length in its metadata and without compression. For a plain batch it is one frame whose
/// metadata parses, and a `StreamReader` on the stream, once ended, opens and yields the same
/// batch and nothing else. A batch with so many buffers that their list takes two gigabytes, on
/// which flatbuffers panics, is left out unless writing is known to return.
#[verifier::external_body]
pub(crate) fn write_batch(
    writer: &mut StreamWriter<BoundedWriter>,
    batch: &RecordBatch,
) -> (done: Result<(), String>)
    requires
        schema_message(batch_model(*batch)) == Ok::<Seq<u8>, Seq<char>>(
            writer_written(*old(writer)),
        ),
        writer_limit(*old(writer)) <= MAX_ARROW_PAYLOAD_LEN,
        writes(batch_model(*batch), writer_limit(*old(writer))),
    ensures
        writer_limit(*final(writer)) == writer_limit(*old(writer)),
        match done {
            Ok(()) => {
                &&& batch_messages(batch_model(*batch)) matches Ok(bytes)
                &&& writer_written(*final(writer)) == writer_written(*old(writer)) + bytes
                &&& writer_written(*final(writer)).len() <= writer_limit(*old(writer))
                &&& writing_returns(batch_model(*batch), writer_limit(*old(writer)))
                &&& are_batch_messages(bytes, plain_batch(batch_model(*batch)))
                &&& plain_batch(batch_model(*batch)) ==> {
                    let stream = writer_written(*final(writer)) + ipc_eos();
                    &&& stream_opening(stream) is Ok
                    &&& stream_items(stream) == seq![
                        Ok::<BatchModel, Seq<char>>(batch_model(*batch)),
                    ]
                }
            },
            Err(detail) => {
                &&& match batch_messages(batch_model(*batch)) {
                    Ok(bytes) => writer_written(*old(writer)).len() + bytes.len() > writer_limit(
                        *old(writer),
                    ) && detail@ == limit_text(writer_limit(*old(writer))),
                    Err(own) => detail@ == own || detail@ == limit_text(
                        writer_limit(*old(writer)),
                    ),
                }
                &&& plain_schema(batch_model(*batch)) ==> batch_messages(batch_model(*batch)) is Ok
                &&& writing_returns(batch_model(*batch), writer_limit(*old(writer)))
            },
        },
{
    writer.write(&batch.0).map_err(|error| error.to_string())
}

/// Ends a stream with `StreamWriter::into_inner`, which writes the end-of-stream marker of
/// eight bytes in one piece, flushes the sink and hands it back.
#[verifier::external_body]
pub(crate) fn finish_stream(writer: StreamWriter<BoundedWriter>) -> (output: Result<
    BoundedWriter,
    String,
>)
    requires
        writer_limit(writer) <= MAX_ARROW_PAYLOAD_LEN,
    ensures
        match output {
            Ok(ended) => {
                &&& ended@ == writer_written(writer) + ipc_eos()
                &&& ended@.len() <= writer_limit(writer)
            },
            Err(detail) => {
                &&& writer_written(writer).len() + ipc_eos().len() > writer_limit(writer)
                &&& detail@ == limit_text(writer_limit(writer))
            },
        },
{
    writer.into_inner().map_err(|error| error.to_string())
}

/// Checks whether all columns of a schema have plain layouts.
pub fn check_fields(fields: &Vec<SchemaField>) -> (plain: bool)
    ensures
        plain == plain_fields(fields@),
{
    let mut index: usize = 0;
    while index < fields.len()
        invariant
            index <= fields.len(),
            forall|i: int| 0 <= i < index ==> !(field_layout(#[trigger] fields@[i]) is Other),
        decreases fields.len() - index,
    {
        match layout_of(fields[index]) {
            ColumnLayout::Other => {
                assert(field_layout(fields@[index as int]) is Other);
                return false;
            },
            _ => {},
        }
        index = index + 1;
    }
    true
}

/// Checks whether the offset buffers of a schema's columns hold whole offsets.
pub fn check_offsets(fields: &Vec<SchemaField>, buffers: &Vec<BufferSpan>) -> (whole: bool)
    requires
        forall|i: int| 0 <= i < buffers.len() ==> 0 <= (#[trigger] buffers@[i]).length,
    ensures
        whole == offsets_whole(field_layouts(fields@), buffers@, 0),
{
    let ghost layouts = field_layouts(fields@);
    let mut column: usize = 0;
    let mut at: u128 = 0;
    assert(layouts.skip(0) =~= layouts);
    while column < fields.len()
        invariant
            column <= fields.len(),
            at <= 3 * column,
            layouts == field_layouts(fields@),
            forall|i: int| 0 <= i < buffers.len() ==> 0 <= (#[trigger] buffers@[i]).length,
            offsets_whole(layouts, buffers@, 0) == offsets_whole(
                layouts.skip(column as int),
                buffers@,
                at as int,
            ),
        decreases fields.len() - column,
    {
        let ghost rest = layouts.skip(column as int);
        assert(rest.drop_first() =~= layouts.skip(column + 1));
        assert(rest[0] == field_layout(fields@[column as int]));
        let (count, width): (u128, i64) = match layout_of(fields[column]) {
            ColumnLayout::Fixed => (2, 1),
            ColumnLayout::Offsets32 => (3, 4),
            ColumnLayout::Offsets64 => (3, 8),
            ColumnLayout::Other => (3, 1),
        };
        if at + 1 < buffers.len() as u128 {
            let offsets = buffers[(at + 1) as usize];
            if offsets.length % width != 0 {
                return false;
            }
        }
        column = column + 1;
        at = at + count;
    }
    assert(layouts.skip(column as int) =~= Seq::empty());
    true
}

/// Checks whether a stream is of those whose opening and reading are known to return.
pub fn check_stream(stream: &FoundStream) -> (plain: bool)
    ensures
        plain == reads_plainly(stream@),
{
    let mut index: usize = 0;
    while index < stream.schemas.len()
        invariant
            index <= stream.schemas.len(),
            forall|i: int| 0 <= i < index ==> plain_fields(#[trigger] stream@.schemas[i]),
        decreases stream.schemas.len() - index,
    {
        assert(stream@.schemas[index as int] == stream.schemas@[index as int]@);
        if !check_fields(&stream.schemas[index]) {
            return false;
        }
        index = index + 1;
    }
    let batch = &stream.batch;
    let mut index: usize = 0;
    while index < batch.buffers.len()
        invariant
            index <= batch.buffers.len(),
            batch == stream.batch,
            forall|i: int|
                0 <= i < index ==> in_body(#[trigger] batch@.buffers[i], batch@.body_length),
        decreases batch.buffers.len() - index,
    {
        let buffer = batch.buffers[index];
        let end: i128 = buffer.offset as i128 + buffer.length as i128;
        if buffer.offset < 0 || buffer.length < 0 || end > batch.body_length as i128 {
            assert(!in_body(stream@.batch.buffers[index as int], stream@.batch.body_length));
            return false;
        }
        index = index + 1;
    }
    if stream.schemas.len() == 0 {
        return true;
    }
    assert(stream@.schemas[0] == stream.schemas@[0]@);
    assert forall|i: int| 0 <= i < batch.buffers.len() implies 0 <= (
    #[trigger] batch.buffers@[i]).length by {
        assert(in_body(batch@.buffers[i], batch@.body_length));
    }
    check_offsets(&stream.schemas[0], &batch.buffers)
}

} // verus!

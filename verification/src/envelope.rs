//! The framing of an IPC stream: messages, each a length prefix with metadata and a
//! body, and the end-of-stream marker after the last of them.
use vstd::prelude::*;

use crate::error::{FaultModel, PayloadFault, Span, UWireError, WireError};
use crate::message::{
    message_info, read_message, BufferSpan, IpcMessage, MessageModel, SchemaField,
    RECORD_BATCH_HEADER,
};
use crate::MAX_ARROW_PAYLOAD_LEN;

verus! {

/// The prefix that says that a length follows.
pub const IPC_CONTINUATION_MARKER: u32 = 0xFFFF_FFFF;

/// The bytes that end a stream: a continuation marker and a length of zero.
pub open spec fn ipc_eos() -> Seq<u8> {
    seq![0xFFu8, 0xFFu8, 0xFFu8, 0xFFu8, 0u8, 0u8, 0u8, 0u8]
}

/// The four bytes at `at` as a little-endian number.
pub open spec fn le_u32(src: Seq<u8>, at: int) -> int {
    src[at] + 0x100 * src[at + 1] + 0x1_0000 * src[at + 2] + 0x100_0000 * src[at + 3]
}

/// The number at `at`, or what keeps it from being read.
pub open spec fn number_at(src: Seq<u8>, at: int, span: Span) -> Result<int, FaultModel> {
    if at + 4 > usize::MAX {
        Err(PayloadFault::Overflow(span))
    } else if at + 4 > src.len() {
        Err(PayloadFault::Truncated(span))
    } else {
        Ok(le_u32(src, at))
    }
}

/// What a message prefix announces.
pub ghost enum Prefix {
    /// The end of the stream.
    End,
    /// A message whose metadata has the given bounds.
    Message { start: int, end: int },
}

/// Metadata of `len` bytes from `start` on.
pub open spec fn metadata_at(src: Seq<u8>, start: int, len: int) -> Result<Prefix, FaultModel> {
    if start + len > usize::MAX {
        Err(PayloadFault::Overflow(Span::MetadataLength))
    } else if start + len > src.len() {
        Err(PayloadFault::TruncatedMetadata)
    } else {
        Ok(Prefix::Message { start, end: start + len })
    }
}

/// What stands at `offset`, where a message or the end of the stream is due.
pub open spec fn prefix_at(src: Seq<u8>, offset: int) -> Result<Prefix, FaultModel> {
    match number_at(src, offset, Span::MessagePrefix) {
        Err(fault) => Err(fault),
        Ok(first) => if first == IPC_CONTINUATION_MARKER {
            match number_at(src, offset + 4, Span::ContinuationLength) {
                Err(fault) => Err(fault),
                Ok(len) => if len != 0 {
                    metadata_at(src, offset + 8, len)
                } else if offset + 8 != src.len() {
                    Err(PayloadFault::TrailingBytes)
                } else {
                    Ok(Prefix::End)
                },
            }
        } else if first == 0 {
            Err(PayloadFault::ShortEndMarker)
        } else {
            metadata_at(src, offset + 4, first)
        },
    }
}

/// A record batch of a stream in contracts.
pub ghost struct BatchSite {
    /// The length of the message body.
    pub body_length: int,
    /// The buffers that the header lists.
    pub buffers: Seq<BufferSpan>,
}

/// What a message holds.
pub ghost enum Site {
    /// A schema with the given top-level fields.
    Schema(Seq<SchemaField>),
    /// A record batch.
    Batch(BatchSite),
    /// Neither of them.
    Other,
}

/// What follows a message: the offset behind its body, and what the message holds.
pub ghost struct Step {
    pub next: int,
    pub site: Site,
}

/// What a message holds, or why it is refused.
pub open spec fn message_site(message: MessageModel) -> Result<Site, FaultModel> {
    if message.header == RECORD_BATCH_HEADER {
        match message.batch {
            None => Err(PayloadFault::MissingBatchHeader),
            Some(header) => if header.compressed {
                Err(PayloadFault::Compressed)
            } else {
                Ok(
                    Site::Batch(
                        BatchSite {
                            body_length: message.body_length as int,
                            buffers: header.buffers,
                        },
                    ),
                )
            },
        }
    } else {
        match message.schema {
            Some(fields) => Ok(Site::Schema(fields)),
            None => Ok(Site::Other),
        }
    }
}

/// The step over a message whose metadata ends at `end` in a stream of `len` bytes,
/// given what its metadata parses to.
pub open spec fn step_over(
    len: nat,
    end: int,
    parsed: Result<MessageModel, Seq<char>>,
) -> Result<Step, FaultModel> {
    match parsed {
        Err(detail) => Err(PayloadFault::Metadata(detail)),
        Ok(message) => match message_site(message) {
            Err(fault) => Err(fault),
            Ok(site) => if message.body_length < 0 || message.body_length > usize::MAX {
                Err(PayloadFault::BodyLength)
            } else if end + message.body_length > usize::MAX {
                Err(PayloadFault::Overflow(Span::BodyLength))
            } else if end + message.body_length > len {
                Err(PayloadFault::TruncatedBody)
            } else {
                Ok(Step { next: end + message.body_length, site })
            },
        },
    }
}

/// What the messages from `offset` on hold, up to the end of the stream, or the first fault
/// among them.
pub open spec fn sites_from(src: Seq<u8>, offset: int) -> Result<Seq<Site>, FaultModel>
    decreases src.len() - offset,
{
    match prefix_at(src, offset) {
        Err(fault) => Err(fault),
        Ok(Prefix::End) => Ok(Seq::empty()),
        Ok(Prefix::Message { start, end }) => match step_over(
            src.len(),
            end,
            message_info(src.subrange(start, end)),
        ) {
            Err(fault) => Err(fault),
            Ok(step) => match sites_from(src, step.next) {
                Err(fault) => Err(fault),
                Ok(rest) => Ok(seq![step.site] + rest),
            },
        },
    }
}

/// The record batches among what messages hold.
pub open spec fn batches_of(sites: Seq<Site>) -> Seq<BatchSite>
    decreases sites.len(),
{
    if sites.len() == 0 {
        Seq::empty()
    } else {
        let rest = batches_of(sites.drop_first());
        match sites[0] {
            Site::Batch(batch) => seq![batch] + rest,
            _ => rest,
        }
    }
}

/// The schemas among what messages hold.
pub open spec fn schemas_of(sites: Seq<Site>) -> Seq<Seq<SchemaField>>
    decreases sites.len(),
{
    if sites.len() == 0 {
        Seq::empty()
    } else {
        let rest = schemas_of(sites.drop_first());
        match sites[0] {
            Site::Schema(fields) => seq![fields] + rest,
            _ => rest,
        }
    }
}

/// The record batch and the schemas of a stream.
pub ghost struct StreamSite {
    pub batch: BatchSite,
    pub schemas: Seq<Seq<SchemaField>>,
}

/// The one record batch of a stream with its schemas, or why the stream is refused.
pub open spec fn envelope(src: Seq<u8>) -> Result<StreamSite, FaultModel> {
    match sites_from(src, 0) {
        Err(fault) => Err(fault),
        Ok(sites) => if batches_of(sites).len() == 0 {
            Err(PayloadFault::NoBatch)
        } else if batches_of(sites).len() > 1 {
            Err(PayloadFault::ManyBatches)
        } else {
            Ok(StreamSite { batch: batches_of(sites)[0], schemas: schemas_of(sites) })
        },
    }
}

/// A record batch that a stream holds.
#[derive(Clone, Debug, PartialEq, Eq)]
pub struct FoundBatch {
    /// The length of the message body.
    pub body_length: i64,
    /// The buffers that the header lists.
    pub buffers: Vec<BufferSpan>,
}

impl View for FoundBatch {
    type V = BatchSite;

    open spec fn view(&self) -> BatchSite {
        BatchSite { body_length: self.body_length as int, buffers: self.buffers@ }
    }
}

/// What a message was found to hold.
#[derive(Clone, Debug, PartialEq, Eq)]
pub enum FoundSite {
    /// A schema with the given top-level fields.
    Schema(Vec<SchemaField>),
    /// A record batch.
    Batch(FoundBatch),
    /// Neither of them.
    Other,
}

impl View for FoundSite {
    type V = Site;

    open spec fn view(&self) -> Site {
        match *self {
            FoundSite::Schema(fields) => Site::Schema(fields@),
            FoundSite::Batch(batch) => Site::Batch(batch@),
            FoundSite::Other => Site::Other,
        }
    }
}

/// The record batches and schemas that a stream was found to hold.
#[derive(Clone, Debug, PartialEq, Eq)]
pub struct FoundContents {
    /// The record batches.
    pub batches: Vec<FoundBatch>,
    /// The top-level fields of each schema.
    pub schemas: Vec<Vec<SchemaField>>,
}

/// Found record batches in contracts.
pub open spec fn found_batches(found: Seq<FoundBatch>) -> Seq<BatchSite> {
    found.map_values(|batch: FoundBatch| batch@)
}

/// Found schemas in contracts.
pub open spec fn found_schemas(found: Seq<Vec<SchemaField>>) -> Seq<Seq<SchemaField>> {
    found.map_values(|fields: Vec<SchemaField>| fields@)
}

/// The one record batch of a stream, with the stream's schemas.
#[derive(Clone, Debug, PartialEq, Eq)]
pub struct FoundStream {
    /// The record batch.
    pub batch: FoundBatch,
    /// The top-level fields of each schema.
    pub schemas: Vec<Vec<SchemaField>>,
}

impl View for FoundStream {
    type V = StreamSite;

    open spec fn view(&self) -> StreamSite {
        StreamSite { batch: self.batch@, schemas: found_schemas(self.schemas@) }
    }
}

/// Checks a payload length against the size limit.
pub fn ensure_payload_limit(len: usize) -> (checked: Result<(), UWireError>)
    ensures
        match checked {
            Ok(()) => len <= MAX_ARROW_PAYLOAD_LEN,
            Err(error) => len > MAX_ARROW_PAYLOAD_LEN && error@ == WireError::InvalidPayload(
                FaultModel::TooLong(len),
            ),
        },
{
    if len > MAX_ARROW_PAYLOAD_LEN {
        return Err(WireError::InvalidPayload(PayloadFault::TooLong(len)));
    }
    Ok(())
}

/// Adds two offsets.
pub fn checked_add(left: usize, right: usize, span: Span) -> (sum: Result<usize, UWireError>)
    ensures
        match sum {
            Ok(total) => total == left + right,
            Err(error) => left + right > usize::MAX && error@ == WireError::InvalidPayload(
                FaultModel::Overflow(span),
            ),
        },
{
    match left.checked_add(right) {
        Some(total) => Ok(total),
        None => Err(WireError::InvalidPayload(PayloadFault::Overflow(span))),
    }
}

/// Reads a little-endian number.
pub fn read_u32(src: &[u8], offset: usize, span: Span) -> (number: Result<u32, UWireError>)
    ensures
        match number {
            Ok(found) => number_at(src@, offset as int, span) == Ok::<
                int,
                FaultModel,
            >(found as int),
            Err(error) => error@ matches WireError::InvalidPayload(fault) && number_at(
                src@,
                offset as int,
                span,
            ) == Err::<int, FaultModel>(fault),
        },
{
    let end = checked_add(offset, 4, span)?;
    if end > src.len() {
        return Err(WireError::InvalidPayload(PayloadFault::Truncated(span)));
    }
    let low: u32 = src[offset] as u32 + 0x100 * (src[offset + 1] as u32);
    let high: u32 = src[offset + 2] as u32 + 0x100 * (src[offset + 3] as u32);
    Ok(low + 0x1_0000 * high)
}

/// Takes what a message holds.
pub fn read_site(message: IpcMessage) -> (site: Result<FoundSite, UWireError>)
    ensures
        match site {
            Ok(found) => message_site(message@) == Ok::<Site, FaultModel>(found@),
            Err(error) => error@ matches WireError::InvalidPayload(fault) && message_site(message@)
                == Err::<Site, FaultModel>(fault),
        },
{
    if message.header == RECORD_BATCH_HEADER {
        match message.batch {
            None => Err(WireError::InvalidPayload(PayloadFault::MissingBatchHeader)),
            Some(header) => {
                if header.compressed {
                    return Err(WireError::InvalidPayload(PayloadFault::Compressed));
                }
                Ok(
                    FoundSite::Batch(
                        FoundBatch { body_length: message.body_length, buffers: header.buffers },
                    ),
                )
            },
        }
    } else {
        match message.schema {
            Some(fields) => Ok(FoundSite::Schema(fields)),
            None => Ok(FoundSite::Other),
        }
    }
}

/// Steps over a message whose metadata ends at `end` in a stream of `len` bytes: gives the
/// offset behind the body, and what the message holds.
pub fn accept_message(len: usize, end: usize, parsed: Result<IpcMessage, String>) -> (step: Result<
    (usize, FoundSite),
    UWireError,
>)
    ensures
        ({
            let outcome = step_over(
                len as nat,
                end as int,
                match parsed {
                    Ok(message) => Ok(message@),
                    Err(detail) => Err(detail@),
                },
            );
            match step {
                Ok((next, site)) => outcome == Ok::<Step, FaultModel>(
                    Step { next: next as int, site: site@ },
                ),
                Err(error) => error@ matches WireError::InvalidPayload(fault) && outcome == Err::<
                    Step,
                    FaultModel,
                >(fault),
            }
        }),
{
    let message = match parsed {
        Ok(message) => message,
        Err(detail) => return Err(WireError::InvalidPayload(PayloadFault::Metadata(detail))),
    };
    let declared: i64 = message.body_length;
    let site = read_site(message)?;
    if declared < 0 || declared as u64 > usize::MAX as u64 {
        return Err(WireError::InvalidPayload(PayloadFault::BodyLength));
    }
    let next = checked_add(end, declared as usize, Span::BodyLength)?;
    if next > len {
        return Err(WireError::InvalidPayload(PayloadFault::TruncatedBody));
    }
    Ok((next, site))
}

/// Finds the bounds of the next message's metadata, or `None` at the end of the stream.
pub fn read_prefix(src: &[u8], offset: usize) -> (prefix: Result<
    Option<(usize, usize)>,
    UWireError,
>)
    ensures
        match prefix {
            Ok(None) => prefix_at(src@, offset as int) == Ok::<Prefix, FaultModel>(
                Prefix::End,
            ),
            Ok(Some((start, end))) => prefix_at(src@, offset as int) == Ok::<
                Prefix,
                FaultModel,
            >(Prefix::Message { start: start as int, end: end as int }),
            Err(error) => error@ matches WireError::InvalidPayload(fault) && prefix_at(
                src@,
                offset as int,
            ) == Err::<Prefix, FaultModel>(fault),
        },
{
    let first = read_u32(src, offset, Span::MessagePrefix)?;
    let start: usize;
    let len: usize;
    if first == IPC_CONTINUATION_MARKER {
        let follows = read_u32(src, offset + 4, Span::ContinuationLength)?;
        if follows == 0 {
            if offset + 8 != src.len() {
                return Err(WireError::InvalidPayload(PayloadFault::TrailingBytes));
            }
            return Ok(None);
        }
        start = offset + 8;
        len = follows as usize;
    } else {
        if first == 0 {
            return Err(WireError::InvalidPayload(PayloadFault::ShortEndMarker));
        }
        start = offset + 4;
        len = first as usize;
    }
    let end = checked_add(start, len, Span::MetadataLength)?;
    if end > src.len() {
        return Err(WireError::InvalidPayload(PayloadFault::TruncatedMetadata));
    }
    Ok(Some((start, end)))
}

/// Lists the record batches and schemas of a stream.
pub fn find_contents(src: &[u8]) -> (contents: Result<FoundContents, UWireError>)
    ensures
        match contents {
            Ok(found) => {
                &&& sites_from(src@, 0) matches Ok(sites)
                &&& found_batches(found.batches@) == batches_of(sites)
                &&& found_schemas(found.schemas@) == schemas_of(sites)
            },
            Err(error) => error@ matches WireError::InvalidPayload(fault) && sites_from(src@, 0)
                == Err::<Seq<Site>, FaultModel>(fault),
        },
{
    let mut offset: usize = 0;
    let mut batches: Vec<FoundBatch> = Vec::new();
    let mut schemas: Vec<Vec<SchemaField>> = Vec::new();
    proof {
        if let Ok(all) = sites_from(src@, 0) {
            assert(found_batches(batches@) + batches_of(all) =~= batches_of(all));
            assert(found_schemas(schemas@) + schemas_of(all) =~= schemas_of(all));
        }
    }
    loop
        invariant
            offset <= src.len(),
            match sites_from(src@, offset as int) {
                Ok(rest) => {
                    &&& sites_from(src@, 0) matches Ok(all)
                    &&& batches_of(all) == found_batches(batches@) + batches_of(rest)
                    &&& schemas_of(all) == found_schemas(schemas@) + schemas_of(rest)
                },
                Err(fault) => sites_from(src@, 0) == Err::<Seq<Site>, FaultModel>(fault),
            },
        decreases src.len() - offset,
    {
        let (start, end) = match read_prefix(src, offset)? {
            Some(bounds) => bounds,
            None => {
                assert(found_batches(batches@) + Seq::empty() =~= found_batches(batches@));
                assert(found_schemas(schemas@) + Seq::empty() =~= found_schemas(schemas@));
                return Ok(FoundContents { batches, schemas });
            },
        };
        let parsed = read_message(&src[start..end]);
        let (next, site) = accept_message(src.len(), end, parsed)?;
        let ghost (before, fields_before) = (batches@, schemas@);
        proof {
            if let Ok(rest) = sites_from(src@, next as int) {
                assert((seq![site@] + rest).drop_first() =~= rest);
            }
        }
        match site {
            FoundSite::Batch(batch) => {
                batches.push(batch);
                proof {
                    if let Ok(rest) = sites_from(src@, next as int) {
                        assert(found_batches(batches@) + batches_of(rest) =~= found_batches(before)
                            + (seq![batch@] + batches_of(rest)));
                    }
                }
            },
            FoundSite::Schema(fields) => {
                schemas.push(fields);
                proof {
                    if let Ok(rest) = sites_from(src@, next as int) {
                        assert(found_schemas(schemas@) + schemas_of(rest) =~= found_schemas(
                            fields_before,
                        ) + (seq![fields@] + schemas_of(rest)));
                    }
                }
            },
            FoundSite::Other => {},
        }
        offset = next;
    }
}

/// Finds the one record batch of a stream, with the stream's schemas.
pub fn find_stream(src: &[u8]) -> (stream: Result<FoundStream, UWireError>)
    ensures
        match stream {
            Ok(found) => envelope(src@) == Ok::<StreamSite, FaultModel>(found@),
            Err(error) => error@ matches WireError::InvalidPayload(fault) && envelope(src@)
                == Err::<StreamSite, FaultModel>(fault),
        },
{
    let contents = find_contents(src)?;
    let mut batches = contents.batches;
    if batches.len() > 1 {
        return Err(WireError::InvalidPayload(PayloadFault::ManyBatches));
    }
    match batches.pop() {
        Some(batch) => Ok(FoundStream { batch, schemas: contents.schemas }),
        None => Err(WireError::InvalidPayload(PayloadFault::NoBatch)),
    }
}

/// Checks that a stream is a sequence of complete messages, exactly one of them an
/// uncompressed record batch, with the end-of-stream marker as its last eight bytes.
pub fn validate_ipc_envelope(src: &[u8]) -> (checked: Result<(), UWireError>)
    ensures
        match checked {
            Ok(()) => envelope(src@) is Ok,
            Err(error) => error@ matches WireError::InvalidPayload(fault) && envelope(src@)
                == Err::<StreamSite, FaultModel>(fault),
        },
{
    match find_stream(src) {
        Ok(_) => Ok(()),
        Err(error) => Err(error),
    }
}

} // verus!

//! Streams by position: what stands where in an accepted stream, and what the first thing that
//! is out of place is refused as.
use vstd::prelude::*;

use crate::envelope::{
    accept_message, batches_of, checked_add, envelope, find_contents, find_stream, found_batches,
    found_schemas, message_site, prefix_at, read_prefix, read_site, read_u32, schemas_of,
    sites_from, step_over, validate_ipc_envelope, BatchSite, FoundContents, FoundSite, FoundStream,
    Prefix, Site, Step, StreamSite,
};
use crate::error::{FaultModel, PayloadFault, Span, UWireError, WireError};
use crate::message::{message_info, IpcMessage, MessageModel};

verus! {

/// A message of a stream: where its prefix, its metadata and its body stand, and what its
/// metadata says.
pub ghost struct Part {
    /// Where the prefix starts.
    pub from: int,
    /// Where the metadata starts.
    pub start: int,
    /// Where the metadata ends and the body starts.
    pub end: int,
    /// Where the body ends.
    pub to: int,
    /// What the metadata says.
    pub message: MessageModel,
}

/// Whether the four bytes at `at`, lowest first, are the number `n`.
pub open spec fn holds_number(src: Seq<u8>, at: int, n: int) -> bool {
    &&& 0 <= at <= src.len() - 4
    &&& n == src[at] + 256 * src[at + 1] + 65_536 * src[at + 2] + 16_777_216 * src[at + 3]
}

/// Whether the four bytes at `at` are all ones.
pub open spec fn holds_marker(src: Seq<u8>, at: int) -> bool {
    &&& 0 <= at <= src.len() - 4
    &&& src[at] == 255
    &&& src[at + 1] == 255
    &&& src[at + 2] == 255
    &&& src[at + 3] == 255
}

/// Whether the prefix at `from` announces metadata of `len` bytes from `start` on: the length
/// behind a marker, or the length alone.
pub open spec fn announces(src: Seq<u8>, from: int, start: int, len: int) -> bool {
    if holds_marker(src, from) {
        start == from + 8 && holds_number(src, from + 4, len)
    } else {
        start == from + 4 && holds_number(src, from, len)
    }
}

/// Whether a message is a record batch that is refused: one without a header, or one whose
/// header names a compression.
pub open spec fn refused_batch(message: MessageModel) -> bool {
    message.header == 3 && (message.batch matches Some(header) ==> header.compressed)
}

/// Whether a message stands where the part says.
pub open spec fn is_part(src: Seq<u8>, part: Part) -> bool {
    &&& announces(src, part.from, part.start, part.end - part.start)
    &&& part.start < part.end <= part.to <= src.len()
    &&& message_info(src.subrange(part.start, part.end)) == Ok::<MessageModel, Seq<char>>(
        part.message,
    )
    &&& part.message.body_length == part.to - part.end
    &&& !refused_batch(part.message)
}

/// Whether the parts stand one behind the other, from `from` to `to`.
pub open spec fn is_chain(src: Seq<u8>, parts: Seq<Part>, from: int, to: int) -> bool {
    &&& parts.len() == 0 ==> from == to
    &&& parts.len() > 0 ==> parts[0].from == from && parts.last().to == to
    &&& forall|i: int| 0 < i < parts.len() ==> (#[trigger] parts[i]).from == parts[i - 1].to
    &&& forall|i: int| 0 <= i < parts.len() ==> is_part(src, #[trigger] parts[i])
}

/// Whether the bytes from `at` on are the end-of-stream marker and nothing else.
pub open spec fn ends_at(src: Seq<u8>, at: int) -> bool {
    &&& at + 8 == src.len()
    &&& holds_marker(src, at)
    &&& holds_number(src, at + 4, 0)
}

/// The parts that are record batches.
pub open spec fn batch_parts(parts: Seq<Part>) -> Seq<Part> {
    parts.filter(|part: Part| part.message.header == 3)
}

/// The parts that are schemas.
pub open spec fn schema_parts(parts: Seq<Part>) -> Seq<Part> {
    parts.filter(|part: Part| part.message.header != 3 && part.message.schema is Some)
}

/// Whether the parts make up all of a stream.
pub open spec fn is_divided(src: Seq<u8>, parts: Seq<Part>) -> bool {
    is_chain(src, parts, 0, src.len() - 8) && ends_at(src, src.len() - 8)
}

/// Whether a byte string is a sequence of complete messages and the end-of-stream marker, with
/// exactly one record batch among the messages.
pub open spec fn well_formed(src: Seq<u8>) -> bool {
    exists|parts: Seq<Part>| #[trigger] is_divided(src, parts) && batch_parts(parts).len() == 1
}

spec fn part_sites(parts: Seq<Part>) -> Seq<Site> {
    parts.map_values(|part: Part| message_site(part.message)->Ok_0)
}

proof fn lemma_part_step(src: Seq<u8>, part: Part)
    requires
        src.len() <= usize::MAX,
        is_part(src, part),
    ensures
        0 <= part.from < part.to,
        message_site(part.message) is Ok,
        sites_from(src, part.from) == match sites_from(src, part.to) {
            Ok(rest) => Ok(seq![message_site(part.message)->Ok_0] + rest),
            Err(fault) => Err(fault),
        },
{
    let Part { from, start, end, to, message } = part;
    assert(prefix_at(src, from) == Ok::<Prefix, FaultModel>(Prefix::Message { start, end }));
    assert(step_over(src.len(), end, message_info(src.subrange(start, end))) == Ok::<
        Step,
        FaultModel,
    >(Step { next: to, site: message_site(message)->Ok_0 }));
}

proof fn lemma_chain_sites(src: Seq<u8>, parts: Seq<Part>, from: int, to: int)
    requires
        src.len() <= usize::MAX,
        0 <= from,
        is_chain(src, parts, from, to),
    ensures
        from <= to,
        parts.len() > 0 ==> to <= src.len(),
        sites_from(src, from) == match sites_from(src, to) {
            Ok(rest) => Ok(part_sites(parts) + rest),
            Err(fault) => Err(fault),
        },
    decreases parts.len(),
{
    if parts.len() == 0 {
        if let Ok(rest) = sites_from(src, to) {
            assert(part_sites(parts) + rest =~= rest);
        }
    } else {
        let first = parts[0];
        let others = parts.drop_first();
        assert(is_part(src, first));
        lemma_part_step(src, first);
        assert forall|i: int| 0 < i < others.len() implies (#[trigger] others[i]).from == others[i
            - 1].to by {
            assert(parts[i + 1].from == parts[i].to);
        }
        assert forall|i: int| 0 <= i < others.len() implies is_part(src, #[trigger] others[i]) by {
            assert(is_part(src, parts[i + 1]));
        }
        if others.len() > 0 {
            assert(parts[1].from == first.to);
        }
        lemma_chain_sites(src, others, first.to, to);
        if let Ok(rest) = sites_from(src, to) {
            assert(part_sites(parts) + rest =~= seq![message_site(first.message)->Ok_0] + (
            part_sites(others) + rest));
        }
    }
}

proof fn lemma_part_contents(parts: Seq<Part>)
    requires
        forall|i: int|
            0 <= i < parts.len() ==> !refused_batch((#[trigger] parts[i]).message),
    ensures
        batches_of(part_sites(parts)) == batch_parts(parts).map_values(
            |part: Part|
                BatchSite {
                    body_length: part.message.body_length as int,
                    buffers: part.message.batch->Some_0.buffers,
                },
        ),
        schemas_of(part_sites(parts)) == schema_parts(parts).map_values(
            |part: Part| part.message.schema->Some_0,
        ),
    decreases parts.len(),
{
    reveal(Seq::filter);
    let as_batch = |part: Part|
        BatchSite {
            body_length: part.message.body_length as int,
            buffers: part.message.batch->Some_0.buffers,
        };
    let as_schema = |part: Part| part.message.schema->Some_0;
    let is_batch = |part: Part| part.message.header == 3;
    let is_schema = |part: Part| part.message.header != 3 && part.message.schema is Some;
    if parts.len() == 0 {
        assert(part_sites(parts) =~= Seq::empty());
        assert(batch_parts(parts).map_values(as_batch) =~= Seq::empty());
        assert(schema_parts(parts).map_values(as_schema) =~= Seq::empty());
    } else {
        let one = seq![parts[0]];
        let others = parts.drop_first();
        assert(parts =~= one + others);
        Seq::filter_distributes_over_add(one, others, is_batch);
        Seq::filter_distributes_over_add(one, others, is_schema);
        assert(one.drop_last() =~= Seq::empty());
        assert(one.drop_last().filter(is_batch) =~= Seq::empty());
        assert(one.drop_last().filter(is_schema) =~= Seq::empty());
        assert forall|i: int| 0 <= i < others.len() implies !refused_batch(
            (#[trigger] others[i]).message,
        ) by {
            assert(!refused_batch(parts[i + 1].message));
        }
        lemma_part_contents(others);
        assert(part_sites(parts).drop_first() =~= part_sites(others));
        assert(!refused_batch(parts[0].message));
        assert(batch_parts(parts).map_values(as_batch) =~= one.filter(is_batch).map_values(as_batch)
            + batch_parts(others).map_values(as_batch));
        assert(schema_parts(parts).map_values(as_schema) =~= one.filter(is_schema).map_values(
            as_schema,
        ) + schema_parts(others).map_values(as_schema));
    }
}

/// What is read without a fault is a chain of parts up to the end-of-stream marker.
proof fn lemma_read_parts(src: Seq<u8>, from: int) -> (parts: Seq<Part>)
    requires
        src.len() <= usize::MAX,
        0 <= from <= src.len(),
        sites_from(src, from) is Ok,
    ensures
        is_chain(src, parts, from, src.len() - 8),
        ends_at(src, src.len() - 8),
    decreases src.len() - from,
{
    match prefix_at(src, from)->Ok_0 {
        Prefix::End => Seq::empty(),
        Prefix::Message { start, end } => {
            let message = message_info(src.subrange(start, end))->Ok_0;
            let to = end + message.body_length;
            let first = Part { from, start, end, to, message };
            assert(is_part(src, first));
            let rest = lemma_read_parts(src, to);
            let parts = seq![first] + rest;
            assert forall|i: int| 0 < i < parts.len() implies (#[trigger] parts[i]).from == parts[i
                - 1].to by {
                if i > 1 {
                    assert(rest[i - 1].from == rest[i - 2].to);
                }
            }
            assert forall|i: int| 0 <= i < parts.len() implies is_part(
                src,
                #[trigger] parts[i],
            ) by {
                if i > 0 {
                    assert(is_part(src, rest[i - 1]));
                }
            }
            parts
        },
    }
}

/// A stream that consists of messages and the end-of-stream marker is accepted exactly if one
/// of its messages is a record batch. What is found in it is the body length and the buffers of
/// that message, and the fields of each schema message, in the order of the messages.
pub proof fn law_divided_stream(src: Seq<u8>, parts: Seq<Part>)
    requires
        src.len() <= usize::MAX,
        is_divided(src, parts),
    ensures
        batch_parts(parts).len() == 0 ==> envelope(src) == Err::<StreamSite, FaultModel>(
            PayloadFault::NoBatch,
        ),
        batch_parts(parts).len() > 1 ==> envelope(src) == Err::<StreamSite, FaultModel>(
            PayloadFault::ManyBatches,
        ),
        batch_parts(parts).len() == 1 ==> (envelope(src) matches Ok(stream) && ({
            let message = batch_parts(parts)[0].message;
            &&& stream.batch.body_length == message.body_length
            &&& message.batch matches Some(header) && stream.batch.buffers == header.buffers
            &&& stream.schemas == schema_parts(parts).map_values(
                |part: Part| part.message.schema->Some_0,
            )
        })),
{
    let at = src.len() - 8;
    lemma_chain_sites(src, parts, 0, at);
    assert(prefix_at(src, at) == Ok::<Prefix, FaultModel>(Prefix::End));
    assert(part_sites(parts) + Seq::empty() =~= part_sites(parts));
    lemma_part_contents(parts);
    if batch_parts(parts).len() == 1 {
        let is_batch = |part: Part| part.message.header == 3;
        parts.lemma_filter_pred(is_batch, 0);
        lemma_filtered(parts, is_batch, 0);
    }
}

proof fn lemma_filtered(parts: Seq<Part>, kept: spec_fn(Part) -> bool, i: int)
    requires
        0 <= i < parts.filter(kept).len(),
    ensures
        parts.contains(parts.filter(kept)[i]),
    decreases parts.len(),
{
    reveal(Seq::filter);
    let before = parts.drop_last();
    if i < before.filter(kept).len() {
        lemma_filtered(before, kept, i);
        let j = choose|j: int| 0 <= j < before.len() && before[j] == before.filter(kept)[i];
        assert(parts[j] == parts.filter(kept)[i]);
    } else {
        assert(parts[parts.len() - 1] == parts.filter(kept)[i]);
    }
}

/// Nothing else is accepted: a stream is accepted exactly if it is well-formed. So a compressed
/// record batch anywhere in a stream, an incomplete message, a second record batch or bytes
/// behind the marker keep it from being accepted.
pub proof fn law_well_formed(src: Seq<u8>)
    requires
        src.len() <= usize::MAX,
    ensures
        envelope(src) is Ok <==> well_formed(src),
{
    if envelope(src) is Ok {
        let parts = lemma_read_parts(src, 0);
        assert(is_divided(src, parts));
        law_divided_stream(src, parts);
    }
    if well_formed(src) {
        let parts = choose|parts: Seq<Part>| #[trigger]
            is_divided(src, parts) && batch_parts(parts).len() == 1;
        law_divided_stream(src, parts);
    }
}

/// Every message of an accepted stream with the header tag of a record batch has a record-batch
/// header, and that header names no compression.
pub proof fn law_uncompressed(src: Seq<u8>, parts: Seq<Part>, at: int, start: int, end: int)
    requires
        src.len() <= usize::MAX,
        envelope(src) is Ok,
        is_chain(src, parts, 0, at),
        announces(src, at, start, end - start),
        start < end <= src.len(),
        message_info(src.subrange(start, end)) matches Ok(message) && message.header == 3,
    ensures
        message_info(src.subrange(start, end)) matches Ok(message) && (
            message.batch matches Some(header) && !header.compressed),
{
    lemma_chain_sites(src, parts, 0, at);
    assert(prefix_at(src, at) == Ok::<Prefix, FaultModel>(Prefix::Message { start, end }));
    assert(step_over(src.len(), end, message_info(src.subrange(start, end))) is Ok);
}

/// A stream that is cut off inside a prefix is refused as truncated there: before the first
/// four bytes are complete, or before the four that follow a marker are.
pub proof fn law_cut_prefix(src: Seq<u8>, parts: Seq<Part>, at: int)
    requires
        src.len() <= usize::MAX - 8,
        is_chain(src, parts, 0, at),
    ensures
        at + 4 > src.len() ==> envelope(src) == Err::<StreamSite, FaultModel>(
            PayloadFault::Truncated(Span::MessagePrefix),
        ),
        holds_marker(src, at) && at + 8 > src.len() ==> envelope(src) == Err::<
            StreamSite,
            FaultModel,
        >(PayloadFault::Truncated(Span::ContinuationLength)),
{
    lemma_chain_sites(src, parts, 0, at);
}

/// Where a message or the end of the stream is due, four zero bytes are refused as a short end
/// marker, and a whole end marker with bytes behind it is refused for those bytes.
pub proof fn law_end_marker(src: Seq<u8>, parts: Seq<Part>, at: int)
    requires
        src.len() <= usize::MAX,
        is_chain(src, parts, 0, at),
    ensures
        holds_number(src, at, 0) ==> envelope(src) == Err::<StreamSite, FaultModel>(
            PayloadFault::ShortEndMarker,
        ),
        holds_marker(src, at) && holds_number(src, at + 4, 0) && at + 8 != src.len() ==> envelope(
            src,
        ) == Err::<StreamSite, FaultModel>(PayloadFault::TrailingBytes),
{
    lemma_chain_sites(src, parts, 0, at);
}

/// Behind any complete messages, a message is refused for the first of these that holds: its
/// metadata is not all there, or does not parse; it is a record batch without a header, or a
/// compressed one; its body length is negative or no offset; its body is not all there.
pub proof fn law_refused_message(
    src: Seq<u8>,
    parts: Seq<Part>,
    at: int,
    start: int,
    len: int,
)
    requires
        src.len() <= usize::MAX,
        is_chain(src, parts, 0, at),
        announces(src, at, start, len),
        len > 0,
    ensures
        start + len > src.len() ==> envelope(src) == Err::<StreamSite, FaultModel>(
            if start + len > usize::MAX {
                PayloadFault::Overflow(Span::MetadataLength)
            } else {
                PayloadFault::TruncatedMetadata
            },
        ),
        start + len <= src.len() ==> match message_info(src.subrange(start, start + len)) {
            Err(detail) => envelope(src) == Err::<StreamSite, FaultModel>(
                PayloadFault::Metadata(detail),
            ),
            Ok(message) => {
                &&& message.header == 3 && message.batch is None ==> envelope(src) == Err::<
                    StreamSite,
                    FaultModel,
                >(PayloadFault::MissingBatchHeader)
                &&& message.header == 3 && message.batch is Some
                    && message.batch->Some_0.compressed ==> envelope(src) == Err::<
                    StreamSite,
                    FaultModel,
                >(PayloadFault::Compressed)
                &&& !refused_batch(message) && !(0 <= message.body_length <= usize::MAX)
                    ==> envelope(src) == Err::<StreamSite, FaultModel>(PayloadFault::BodyLength)
                &&& !refused_batch(message) && 0 <= message.body_length <= usize::MAX && start + len
                    + message.body_length > src.len() ==> envelope(src) == Err::<
                    StreamSite,
                    FaultModel,
                >(
                    if start + len + message.body_length > usize::MAX {
                        PayloadFault::Overflow(Span::BodyLength)
                    } else {
                        PayloadFault::TruncatedBody
                    },
                )
            },
        },
{
    lemma_chain_sites(src, parts, 0, at);
}

/// Checking a stream succeeds exactly if the stream is well-formed.
pub proof fn law_validated(src: &[u8], checked: Result<(), UWireError>)
    requires
        call_ensures(validate_ipc_envelope, (src,), checked),
    ensures
        checked is Ok <==> well_formed(src@),
        checked matches Err(error) ==> (error@ matches WireError::InvalidPayload(fault) && envelope(
            src@,
        ) == Err::<StreamSite, FaultModel>(fault)),
{
    assert(src@.len() == src.len());
    law_well_formed(src@);
}

/// What is found in a stream of messages and the end-of-stream marker is the body length and the
/// buffers of its record batch, and the fields of each schema message, in the order of the
/// messages.
pub proof fn law_found_stream(src: &[u8], parts: Seq<Part>, stream: Result<FoundStream, UWireError>)
    requires
        call_ensures(find_stream, (src,), stream),
        is_divided(src@, parts),
    ensures
        stream is Ok <==> batch_parts(parts).len() == 1,
        stream matches Ok(found) ==> {
            let message = batch_parts(parts)[0].message;
            &&& found.batch.body_length == message.body_length
            &&& message.batch matches Some(header) && found.batch.buffers@ == header.buffers
            &&& found.schemas@.len() == schema_parts(parts).len()
            &&& forall|i: int|
                0 <= i < found.schemas@.len() ==> (#[trigger] found.schemas@[i])@ == schema_parts(
                    parts,
                )[i].message.schema->Some_0
        },
{
    assert(src@.len() == src.len());
    law_divided_stream(src@, parts);
    if let Ok(found) = stream {
        assert(envelope(src@) == Ok::<StreamSite, FaultModel>(found@));
        assert(batch_parts(parts).len() == 1);
        assert(found@.schemas.len() == schema_parts(parts).len());
        assert(found@.schemas.len() == found.schemas@.len());
        assert forall|i: int| 0 <= i < found.schemas@.len() implies (
        #[trigger] found.schemas@[i])@ == schema_parts(parts)[i].message.schema->Some_0 by {
            assert(found@.schemas[i] == found.schemas@[i]@);
        }
    }
}

/// Reading a prefix finds the end of the stream exactly where the end-of-stream marker and
/// nothing else stands, and metadata exactly where a prefix announces it and it is all there.
pub proof fn law_prefix(
    src: &[u8],
    offset: usize,
    prefix: Result<Option<(usize, usize)>, UWireError>,
)
    requires
        call_ensures(read_prefix, (src, offset), prefix),
    ensures
        prefix == Ok::<Option<(usize, usize)>, UWireError>(None) <==> ends_at(src@, offset as int),
        prefix matches Ok(Some(bounds)) ==> bounds.0 < bounds.1 <= src@.len() && announces(
            src@,
            offset as int,
            bounds.0 as int,
            bounds.1 - bounds.0,
        ),
        forall|start: int, end: int|
            start < end <= src@.len() && #[trigger] announces(
                src@,
                offset as int,
                start,
                end - start,
            ) ==> (prefix matches Ok(Some(bounds)) && bounds.0 == start && bounds.1 == end),
{
    assert(src@.len() == src.len());
}

/// A number is read from its four bytes, lowest first, wherever there are four, and refused
/// as truncated, or as no offset, where there are not.
pub proof fn law_number(src: &[u8], offset: usize, span: Span, number: Result<u32, UWireError>)
    requires
        call_ensures(read_u32, (src, offset, span), number),
    ensures
        match number {
            Ok(found) => holds_number(src@, offset as int, found as int),
            Err(error) => offset + 4 > src@.len() && error@ == WireError::InvalidPayload(
                if offset + 4 > usize::MAX {
                    FaultModel::Overflow(span)
                } else {
                    FaultModel::Truncated(span)
                },
            ),
        },
{
    assert(src@.len() == src.len());
}

/// What a message holds is taken from it as it is: a record batch's body length and buffers where
/// the tag says record batch, and otherwise the fields of a schema, if it has one. Only a record
/// batch that is compressed or has no header is refused.
pub proof fn law_message_contents(message: IpcMessage, site: Result<FoundSite, UWireError>)
    requires
        call_ensures(read_site, (message,), site),
    ensures
        site is Err <==> message.header == 3 && (message.batch is None
            || message.batch->Some_0.compressed),
        site matches Err(error) ==> error@ == WireError::InvalidPayload(
            if message.batch is None {
                FaultModel::MissingBatchHeader
            } else {
                FaultModel::Compressed
            },
        ),
        site matches Ok(FoundSite::Batch(batch)) ==> message.header == 3 && batch.body_length
            == message.body_length && batch.buffers@ == message.batch->Some_0.buffers@,
        site matches Ok(FoundSite::Schema(fields)) ==> message.header != 3 && message.schema is Some
            && fields@ == message.schema->Some_0@,
        site matches Ok(FoundSite::Other) ==> message.header != 3 && message.schema is None,
{
}

/// A message is stepped over by the length of its body, from the end of its metadata to an offset
/// inside the stream.
pub proof fn law_message_step(
    len: usize,
    end: usize,
    message: IpcMessage,
    step: Result<(usize, FoundSite), UWireError>,
)
    requires
        call_ensures(accept_message, (len, end, Ok::<IpcMessage, String>(message)), step),
        message.header != 3 || message.batch is Some && !message.batch->Some_0.compressed,
    ensures
        step is Ok <==> 0 <= message.body_length && end + message.body_length <= len,
        step matches Ok(found) ==> found.0 == end + message.body_length,
        step matches Ok(found) ==> (found.1 is Batch <==> message.header == 3),
        step matches Err(error) ==> error@ == WireError::InvalidPayload(
            if message.body_length < 0 || message.body_length > usize::MAX {
                FaultModel::BodyLength
            } else if end + message.body_length > usize::MAX {
                FaultModel::Overflow(Span::BodyLength)
            } else {
                FaultModel::TruncatedBody
            },
        ),
{
}

/// The record batches and schemas listed for a stream of messages and the end-of-stream marker
/// are those of its messages, in their order.
pub proof fn law_found_contents(
    src: &[u8],
    parts: Seq<Part>,
    contents: Result<FoundContents, UWireError>,
)
    requires
        call_ensures(find_contents, (src,), contents),
        is_divided(src@, parts),
    ensures
        contents matches Ok(found) && ({
            &&& found.batches@.len() == batch_parts(parts).len()
            &&& forall|i: int|
                0 <= i < found.batches@.len() ==> {
                    let message = batch_parts(parts)[i].message;
                    &&& (#[trigger] found.batches@[i]).body_length == message.body_length
                    &&& found.batches@[i].buffers@ == message.batch->Some_0.buffers
                }
            &&& found.schemas@.len() == schema_parts(parts).len()
            &&& forall|i: int|
                0 <= i < found.schemas@.len() ==> (#[trigger] found.schemas@[i])@ == schema_parts(
                    parts,
                )[i].message.schema->Some_0
        }),
{
    assert(src@.len() == src.len());
    let at = src@.len() - 8;
    lemma_chain_sites(src@, parts, 0, at);
    assert(prefix_at(src@, at) == Ok::<Prefix, FaultModel>(Prefix::End));
    assert(part_sites(parts) + Seq::empty() =~= part_sites(parts));
    lemma_part_contents(parts);
    let found = contents->Ok_0;
    let batches = found_batches(found.batches@);
    let schemas = found_schemas(found.schemas@);
    assert(batches == batches_of(part_sites(parts)));
    assert(schemas == schemas_of(part_sites(parts)));
    assert(batches.len() == batch_parts(parts).len());
    assert(schemas.len() == schema_parts(parts).len());
    assert forall|i: int| 0 <= i < found.batches@.len() implies {
        let message = batch_parts(parts)[i].message;
        &&& (#[trigger] found.batches@[i]).body_length == message.body_length
        &&& found.batches@[i].buffers@ == message.batch->Some_0.buffers
    } by {
        assert(batches[i] == found.batches@[i]@);
    }
    assert forall|i: int| 0 <= i < found.schemas@.len() implies (#[trigger] found.schemas@[i])@
        == schema_parts(parts)[i].message.schema->Some_0 by {
        assert(schemas[i] == found.schemas@[i]@);
    }
}

/// Adding two offsets gives their sum wherever it is an offset, and is refused wherever it is not.
pub proof fn law_sum(left: usize, right: usize, span: Span, sum: Result<usize, UWireError>)
    requires
        call_ensures(checked_add, (left, right, span), sum),
    ensures
        sum is Ok <==> left + right <= usize::MAX,
        sum matches Ok(total) ==> total - left == right,
        sum matches Err(error) ==> error == UWireError::InvalidPayload(
            PayloadFault::Overflow(span),
        ),
{
}

} // verus!

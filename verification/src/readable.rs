//! Which streams are known beforehand to be readable, stated over the type tags of their fields
//! and the places of their buffers.
use vstd::prelude::*;

use crate::envelope::{envelope, FoundStream};
use crate::error::UWireError;
use crate::message::{BufferSpan, SchemaField};
use crate::parts::{batch_parts, is_divided, law_divided_stream, schema_parts, Part};
use crate::payload::ArrowWirePayload;
use crate::stream::{
    check_fields, check_offsets, check_stream, field_layout, field_layouts, in_body, layout_of,
    offsets_whole, plain_fields, plain_fields_only, ColumnLayout,
};
use crate::wire::{ArrowWire, ReadOutcome};

verus! {

/// Whether a field has values of fixed width: integers, floating-point numbers, booleans,
/// decimals, dates, times, timestamps, intervals or durations.
pub open spec fn has_fixed_width(field: SchemaField) -> bool {
    !field.dictionary && (field.type_tag == 2 || field.type_tag == 3 || field.type_tag == 6
        || field.type_tag == 7 || field.type_tag == 8 || field.type_tag == 9 || field.type_tag == 10
        || field.type_tag == 11 || field.type_tag == 18)
}

/// Whether a field has byte strings or texts with 32-bit offsets.
pub open spec fn has_short_offsets(field: SchemaField) -> bool {
    !field.dictionary && (field.type_tag == 4 || field.type_tag == 5)
}

/// Whether a field has byte strings or texts with 64-bit offsets.
pub open spec fn has_long_offsets(field: SchemaField) -> bool {
    !field.dictionary && (field.type_tag == 19 || field.type_tag == 20)
}

/// The layout of a field's column goes by the tag of its type, and a dictionary has another one.
pub proof fn law_column_layout(field: SchemaField, layout: ColumnLayout)
    requires
        call_ensures(layout_of, (field,), layout),
    ensures
        layout is Fixed <==> has_fixed_width(field),
        layout is Offsets32 <==> has_short_offsets(field),
        layout is Offsets64 <==> has_long_offsets(field),
{
}

/// Whether all fields have values of fixed width, or byte strings or texts.
pub open spec fn are_readable(fields: Seq<SchemaField>) -> bool {
    forall|i: int|
        0 <= i < fields.len() ==> {
            let field = #[trigger] fields[i];
            has_fixed_width(field) || has_short_offsets(field) || has_long_offsets(field)
        }
}

/// The number of buffers of the first `count` columns: two for values of fixed width, and three
/// for byte strings or texts.
pub open spec fn buffers_before(fields: Seq<SchemaField>, count: int) -> int
    decreases count,
{
    if count <= 0 {
        0
    } else {
        buffers_before(fields, count - 1) + if has_fixed_width(fields[count - 1]) {
            2int
        } else {
            3int
        }
    }
}

/// Whether the offset buffers of the columns, each the second of its column, hold whole offsets.
pub open spec fn are_whole(fields: Seq<SchemaField>, buffers: Seq<BufferSpan>) -> bool {
    forall|c: int|
        0 <= c < fields.len() && buffers_before(fields, c) + 1 < buffers.len() ==> {
            let length = buffers[buffers_before(fields, c) + 1].length as int;
            &&& has_short_offsets(#[trigger] fields[c]) ==> length % 4 == 0
            &&& has_long_offsets(fields[c]) ==> length % 8 == 0
        }
}

/// Whether a batch with these buffers can be read under these schemas: all fields are readable,
/// every buffer lies in the body, and the offset buffers under the first schema hold whole
/// offsets.
pub open spec fn is_readable(
    schemas: Seq<Seq<SchemaField>>,
    body_length: int,
    buffers: Seq<BufferSpan>,
) -> bool {
    &&& forall|i: int| 0 <= i < schemas.len() ==> are_readable(#[trigger] schemas[i])
    &&& forall|i: int|
        0 <= i < buffers.len() ==> 0 <= (#[trigger] buffers[i]).offset && 0 <= buffers[i].length
            && buffers[i].offset + buffers[i].length <= body_length
    &&& schemas.len() > 0 ==> are_whole(schemas[0], buffers)
}

proof fn lemma_readable_fields(fields: Seq<SchemaField>)
    ensures
        plain_fields(fields) == are_readable(fields),
{
    if plain_fields(fields) {
        assert forall|i: int| 0 <= i < fields.len() implies ({
            let field = #[trigger] fields[i];
            has_fixed_width(field) || has_short_offsets(field) || has_long_offsets(field)
        }) by {
            assert(!(field_layout(fields[i]) is Other));
        }
    }
}

proof fn lemma_whole(fields: Seq<SchemaField>, buffers: Seq<BufferSpan>, count: int)
    requires
        are_readable(fields),
        0 <= count <= fields.len(),
    ensures
        offsets_whole(
            field_layouts(fields).skip(count),
            buffers,
            buffers_before(fields, count),
        ) <==> forall|c: int|
            count <= c < fields.len() && buffers_before(fields, c) + 1 < buffers.len() ==> {
                let length = buffers[buffers_before(fields, c) + 1].length as int;
                &&& has_short_offsets(#[trigger] fields[c]) ==> length % 4 == 0
                &&& has_long_offsets(fields[c]) ==> length % 8 == 0
            },
    decreases fields.len() - count,
{
    let layouts = field_layouts(fields).skip(count);
    if count < fields.len() {
        lemma_whole(fields, buffers, count + 1);
        assert(layouts.drop_first() =~= field_layouts(fields).skip(count + 1));
        assert(layouts[0] == field_layout(fields[count]));
        let field = fields[count];
        assert(has_fixed_width(field) || has_short_offsets(field) || has_long_offsets(field));
    }
}

proof fn lemma_readable(
    schemas: Seq<Seq<SchemaField>>,
    body_length: int,
    buffers: Seq<BufferSpan>,
)
    ensures
        ({
            &&& plain_fields_only(schemas)
            &&& forall|i: int|
                0 <= i < buffers.len() ==> in_body(#[trigger] buffers[i], body_length)
            &&& schemas.len() > 0 ==> offsets_whole(field_layouts(schemas[0]), buffers, 0)
        }) == is_readable(schemas, body_length, buffers),
{
    assert forall|i: int| 0 <= i < schemas.len() implies plain_fields(#[trigger] schemas[i])
        == are_readable(schemas[i]) by {
        lemma_readable_fields(schemas[i]);
    }
    assert(plain_fields_only(schemas) == forall|i: int|
        0 <= i < schemas.len() ==> are_readable(#[trigger] schemas[i]));
    if schemas.len() > 0 && are_readable(schemas[0]) {
        lemma_whole(schemas[0], buffers, 0);
        assert(field_layouts(schemas[0]).skip(0) =~= field_layouts(schemas[0]));
    }
    if is_readable(schemas, body_length, buffers) {
        assert forall|i: int| 0 <= i < buffers.len() implies in_body(
            #[trigger] buffers[i],
            body_length,
        ) by {}
    }
    if forall|i: int| 0 <= i < buffers.len() ==> in_body(#[trigger] buffers[i], body_length) {
        assert forall|i: int| 0 <= i < buffers.len() implies 0 <= (#[trigger] buffers[i]).offset
            && 0 <= buffers[i].length && buffers[i].offset + buffers[i].length <= body_length by {
            assert(in_body(buffers[i], body_length));
        }
    }
}

/// A stream is taken for one that can be read exactly if it is readable.
pub proof fn law_checked_stream(stream: FoundStream, plain: bool)
    requires
        call_ensures(check_stream, (&stream,), plain),
    ensures
        plain <==> is_readable(
            Seq::new(stream.schemas@.len(), |i: int| stream.schemas@[i]@),
            stream.batch.body_length as int,
            stream.batch.buffers@,
        ),
{
    let schemas = Seq::new(stream.schemas@.len(), |i: int| stream.schemas@[i]@);
    assert(stream@.schemas =~= schemas);
    lemma_readable(schemas, stream.batch.body_length as int, stream.batch.buffers@);
}

/// Decoding that is only tried comes to nothing exactly for a well-formed stream of at most 64 MiB
/// that is not readable.
pub proof fn law_tried_decoding<T: ArrowWirePayload>(
    src: &[u8],
    parts: Seq<Part>,
    decoded: Option<Result<T, UWireError>>,
)
    requires
        call_ensures(ArrowWire::try_decode_payload::<T>, (src,), decoded),
    ensures
        src@.len() > 67_108_864 ==> decoded is Some,
        envelope(src@) is Err ==> decoded is Some,
        src@.len() <= 67_108_864 && is_divided(src@, parts) && batch_parts(parts).len() == 1 ==> (
        decoded is Some <==> is_readable(
            schema_parts(parts).map_values(|part: Part| part.message.schema->Some_0),
            batch_parts(parts)[0].message.body_length as int,
            batch_parts(parts)[0].message.batch->Some_0.buffers,
        )),
{
    if src@.len() <= 67_108_864 && is_divided(src@, parts) {
        law_divided_stream(src@, parts);
        if let Ok(stream) = envelope(src@) {
            lemma_readable(stream.schemas, stream.batch.body_length, stream.batch.buffers);
        }
    }
}

/// Decoding from a reader that is only tried comes to nothing exactly where trying to decode the
/// bytes does, and never where the reader did not give exactly the declared bytes.
pub proof fn law_tried_reading<T: ArrowWirePayload>(
    payload_len: usize,
    read: ReadOutcome,
    parts: Seq<Part>,
    decoded: Option<Result<T, UWireError>>,
)
    requires
        call_ensures(
            ArrowWire::try_decode_payload_from_reader::<T>,
            (payload_len, read),
            decoded,
        ),
    ensures
        payload_len > 67_108_864 ==> decoded is Some,
        !(read is Filled) ==> decoded is Some,
        read matches ReadOutcome::Filled(bytes) && (bytes@.len() != payload_len || envelope(
            bytes@,
        ) is Err) ==> decoded is Some,
        read matches ReadOutcome::Filled(bytes) && bytes@.len() == payload_len && payload_len
            <= 67_108_864 && is_divided(bytes@, parts) && batch_parts(parts).len() == 1 ==> (
        decoded is Some <==> is_readable(
            schema_parts(parts).map_values(|part: Part| part.message.schema->Some_0),
            batch_parts(parts)[0].message.body_length as int,
            batch_parts(parts)[0].message.batch->Some_0.buffers,
        )),
{
    if let ReadOutcome::Filled(bytes) = read {
        if bytes@.len() == payload_len && payload_len <= 67_108_864 && is_divided(bytes@, parts) {
            law_divided_stream(bytes@, parts);
            if let Ok(stream) = envelope(bytes@) {
                lemma_readable(stream.schemas, stream.batch.body_length, stream.batch.buffers);
            }
        }
    }
}

/// The fields of a schema are taken for readable exactly if they are.
pub proof fn law_checked_fields(fields: Vec<SchemaField>, plain: bool)
    requires
        call_ensures(check_fields, (&fields,), plain),
    ensures
        plain <==> are_readable(fields@),
{
    lemma_readable_fields(fields@);
}

/// The offset buffers of readable columns are taken for whole exactly if they are.
pub proof fn law_checked_offsets(
    fields: Vec<SchemaField>,
    buffers: Vec<BufferSpan>,
    whole: bool,
)
    requires
        are_readable(fields@),
        call_ensures(check_offsets, (&fields, &buffers), whole),
    ensures
        whole <==> are_whole(fields@, buffers@),
{
    lemma_whole(fields@, buffers@, 0);
    assert(field_layouts(fields@).skip(0) =~= field_layouts(fields@));
}

/// A readable stream of at most 64 MiB may be decoded.
pub proof fn law_may_read<T: ArrowWirePayload>(src: &[u8], parts: Seq<Part>)
    requires
        src@.len() <= 67_108_864,
        is_divided(src@, parts),
        batch_parts(parts).len() == 1,
        is_readable(
            schema_parts(parts).map_values(|part: Part| part.message.schema->Some_0),
            batch_parts(parts)[0].message.body_length as int,
            batch_parts(parts)[0].message.batch->Some_0.buffers,
        ),
    ensures
        call_requires(ArrowWire::decode_payload::<T>, (src,)),
{
    law_divided_stream(src@, parts);
    let stream = envelope(src@)->Ok_0;
    lemma_readable(stream.schemas, stream.batch.body_length, stream.batch.buffers);
}

} // verus!

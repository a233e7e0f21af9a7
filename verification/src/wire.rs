//! The selected wire: encoding to one IPC stream and decoding from one.
use bytes::Bytes;
use vstd::prelude::*;

use crate::batch::{batch_model, check_schema, plain_schema, BatchModel, RecordBatch};
use crate::bounded::BoundedWriter;
use crate::envelope::{
    batches_of, ensure_payload_limit, envelope, find_stream, ipc_eos, schemas_of,
    validate_ipc_envelope, Site,
};
use crate::error::{EncodeStep, ErrorModel, FaultModel, PayloadFault, UWireError, WireError};
use crate::framing::{
    frame_accepted, frame_bytes, frame_site, frame_sites, frame_sound, frames_accepted,
    law_sound_stream, stream_bytes, Frame,
};
use crate::message::{message_info, BufferSpan, DICTIONARY_HEADER, SCHEMA_HEADER};
use crate::payload::ArrowWirePayload;
use crate::stream::{
    are_batch_frames, are_batch_messages, batch_messages, check_stream, create_stream,
    field_layouts, finish_stream, is_fixed_schema, is_plain_frame, is_schema_message, limit_text,
    next_batch, offsets_whole, open_stream, opens, plain_batch, plain_fields, reads_back,
    reads_plainly, schema_message, stream_items, stream_opening, write_batch, writer_written,
    writes, written_frame, ColumnLayout,
};
use crate::MAX_ARROW_PAYLOAD_LEN;

verus! {

/// A failure to encode.
pub open spec fn encode_error(step: EncodeStep, detail: Seq<char>) -> ErrorModel {
    WireError::SerializationError { step, detail }
}

/// Whether `outcome` is what encoding a batch gives: the schema message, the messages of the
/// batch and the end-of-stream marker, as long as all of it fits the size limit.
pub open spec fn encodes(
    batch: BatchModel,
    outcome: Result<Seq<u8>, ErrorModel>,
) -> bool {
    let limit = limit_text(MAX_ARROW_PAYLOAD_LEN);
    match schema_message(batch) {
        Err(own) => outcome == Err::<Seq<u8>, ErrorModel>(
            encode_error(EncodeStep::CreateStream, own),
        ),
        Ok(schema) => if schema.len() > MAX_ARROW_PAYLOAD_LEN {
            outcome == Err::<Seq<u8>, ErrorModel>(
                encode_error(EncodeStep::CreateStream, limit),
            )
        } else {
            match batch_messages(batch) {
                Err(own) => {
                    ||| outcome == Err::<Seq<u8>, ErrorModel>(
                        encode_error(EncodeStep::WriteBatch, own),
                    )
                    ||| outcome == Err::<Seq<u8>, ErrorModel>(
                        encode_error(EncodeStep::WriteBatch, limit),
                    )
                },
                Ok(messages) => if schema.len() + messages.len() > MAX_ARROW_PAYLOAD_LEN {
                    outcome == Err::<Seq<u8>, ErrorModel>(
                        encode_error(EncodeStep::WriteBatch, limit),
                    )
                } else if schema.len() + messages.len() + ipc_eos().len() > MAX_ARROW_PAYLOAD_LEN {
                    outcome == Err::<Seq<u8>, ErrorModel>(
                        encode_error(EncodeStep::FinishStream, limit),
                    )
                } else {
                    outcome == Ok::<Seq<u8>, ErrorModel>(schema + messages + ipc_eos())
                },
            }
        },
    }
}

/// Whether an error says that an encoded batch is over the size limit.
pub open spec fn over_limit(error: ErrorModel) -> bool {
    error matches WireError::SerializationError { detail, .. } && detail == limit_text(
        MAX_ARROW_PAYLOAD_LEN,
    )
}

/// The batch that a payload decodes to, or why it is refused.
pub open spec fn decoding(src: Seq<u8>) -> Result<BatchModel, FaultModel> {
    if src.len() > MAX_ARROW_PAYLOAD_LEN {
        Err(PayloadFault::TooLong(src.len() as usize))
    } else {
        match envelope(src) {
            Err(fault) => Err(fault),
            Ok(_) => match stream_opening(src) {
                Err(detail) => Err(PayloadFault::Open(detail)),
                Ok(_) => {
                    let items = stream_items(src);
                    if items.len() == 0 {
                        Err(PayloadFault::NoBatch)
                    } else {
                        match items[0] {
                            Err(detail) => Err(PayloadFault::Decode(detail)),
                            Ok(batch) => if items.len() > 1 {
                                Err(PayloadFault::ManyBatches)
                            } else {
                                Ok(batch)
                            },
                        }
                    }
                },
            },
        }
    }
}

/// Whether a payload can be decoded without a panic: it is refused before its stream is
/// opened, or opening and reading it return.
pub open spec fn decodable(src: Seq<u8>) -> bool {
    ||| src.len() > MAX_ARROW_PAYLOAD_LEN
    ||| envelope(src) is Err
    ||| opens(src) && (stream_opening(src) is Err || reads_back(src))
}

/// Whether it shows before opening its stream that a payload can be decoded.
pub open spec fn plainly_decodable(src: Seq<u8>) -> bool {
    ||| src.len() > MAX_ARROW_PAYLOAD_LEN
    ||| envelope(src) is Err
    ||| reads_plainly(envelope(src)->Ok_0)
}

/// Whether a payload decodes to the given batch.
pub open spec fn decodes_to(src: Seq<u8>, batch: BatchModel) -> bool {
    &&& plainly_decodable(src)
    &&& decoding(src) == Ok::<BatchModel, FaultModel>(batch)
}

/// An encoding outcome in contracts.
pub open spec fn encoded_view(encoded: Result<Vec<u8>, UWireError>) -> Result<Seq<u8>, ErrorModel> {
    match encoded {
        Ok(bytes) => Ok(bytes@),
        Err(error) => Err(error@),
    }
}

proof fn lemma_fixed_offsets(layouts: Seq<ColumnLayout>, buffers: Seq<BufferSpan>, at: int)
    requires
        forall|i: int| 0 <= i < layouts.len() ==> #[trigger] layouts[i] is Fixed,
    ensures
        offsets_whole(layouts, buffers, at),
    decreases layouts.len(),
{
    if layouts.len() > 0 {
        let rest = layouts.drop_first();
        assert forall|i: int| 0 <= i < rest.len() implies #[trigger] rest[i] is Fixed by {
            assert(layouts[i + 1] is Fixed);
        }
        lemma_fixed_offsets(rest, buffers, at + 2);
    }
}

/// Whether `bytes` is a complete stream with one record batch, as far as the metadata of its
/// messages parses.
pub open spec fn is_framed(bytes: Seq<u8>) -> bool {
    envelope(bytes) matches Err(fault) ==> fault is Metadata
}

proof fn lemma_batch_frames(frames: Seq<Frame>)
    requires
        are_batch_frames(frames),
    ensures
        forall|i: int| 0 <= i < frames.len() ==> #[trigger] frame_sound(frames[i]),
        frames_accepted(frames) ==> frame_site(frames.last()) is Batch && batches_of(
            frame_sites(frames),
        ) == seq![frame_site(frames.last())->Batch_0],
        frames_accepted(frames) && frames.len() == 1 ==> schemas_of(frame_sites(frames))
            =~= Seq::empty(),
    decreases frames.len(),
{
    let rest = frames.drop_first();
    let sites = frame_sites(frames);
    assert(sites.drop_first() =~= frame_sites(rest));
    if frames.len() == 1 {
        assert(batches_of(frame_sites(rest)) =~= Seq::empty());
        assert(schemas_of(frame_sites(rest)) =~= Seq::empty());
        assert(frame_sound(frames[0]));
        if frames_accepted(frames) {
            assert(frame_accepted(frames[0]));
            assert(batches_of(sites) =~= seq![frame_site(frames[0])->Batch_0]);
        }
    } else {
        assert(written_frame(frames[0], DICTIONARY_HEADER));
        assert forall|i: int| 0 <= i < rest.len() - 1 implies written_frame(
            #[trigger] rest[i],
            DICTIONARY_HEADER,
        ) by {
            assert(written_frame(frames[i + 1], DICTIONARY_HEADER));
        }
        lemma_batch_frames(rest);
        assert forall|i: int| 0 <= i < frames.len() implies #[trigger] frame_sound(frames[i]) by {
            if i > 0 {
                assert(frame_sound(rest[i - 1]));
            }
        }
        if frames_accepted(frames) {
            assert(frame_accepted(frames[0]));
            assert forall|i: int| 0 <= i < rest.len() implies #[trigger] frame_accepted(
                rest[i],
            ) by {
                assert(frame_accepted(frames[i + 1]));
            }
        }
    }
}

proof fn lemma_encoded_stream(batch: BatchModel, schema: Seq<u8>, messages: Seq<u8>)
    requires
        is_schema_message(schema, plain_schema(batch)),
        are_batch_messages(messages, plain_batch(batch)),
        schema.len() + messages.len() + ipc_eos().len() <= MAX_ARROW_PAYLOAD_LEN,
        plain_batch(batch) ==> {
            let stream = schema + messages + ipc_eos();
            &&& stream_opening(stream) is Ok
            &&& stream_items(stream) == seq![Ok::<BatchModel, Seq<char>>(batch)]
        },
    ensures
        is_framed(schema + messages + ipc_eos()),
        plain_batch(batch) ==> decodes_to(schema + messages + ipc_eos(), batch),
{
    let plain = plain_batch(batch);
    let src = schema + messages + ipc_eos();
    let first = choose|frame: Frame|
        schema == #[trigger] frame_bytes(frame) && written_frame(frame, SCHEMA_HEADER)
            && frame.body.len() == 0 && (plain_schema(batch) ==> is_fixed_schema(frame));
    let frames = choose|frames: Seq<Frame>|
        messages + ipc_eos() == #[trigger] stream_bytes(frames) && are_batch_frames(frames) && (
        plain ==> frames.len() == 1 && is_plain_frame(frames[0]));
    let all = seq![first] + frames;
    let sites = frame_sites(all);
    assert(all.drop_first() =~= frames);
    assert(sites.drop_first() =~= frame_sites(frames));
    assert(src =~= schema + (messages + ipc_eos()));
    lemma_batch_frames(frames);
    assert forall|i: int| 0 <= i < all.len() implies #[trigger] frame_sound(all[i]) by {
        if i > 0 {
            assert(frame_sound(frames[i - 1]));
        }
    }
    if frames_accepted(all) {
        assert(frame_accepted(all[0]));
        assert forall|i: int| 0 <= i < frames.len() implies #[trigger] frame_accepted(
            frames[i],
        ) by {
            assert(frame_accepted(all[i + 1]));
        }
        assert(batches_of(sites) == batches_of(frame_sites(frames)));
    }
    law_sound_stream(src, all);
    if plain {
        assert(frame_sound(all[0]) && frame_sound(all[1]));
        assert(frames_accepted(all));
        let fields = message_info(first.metadata)->Ok_0.schema->Some_0;
        assert(sites[0] == Site::Schema(fields));
        assert(schemas_of(sites) =~= seq![fields]);
        let stream = envelope(src)->Ok_0;
        assert(plain_fields(fields));
        assert(stream.schemas =~= seq![fields]);
        lemma_fixed_offsets(field_layouts(fields), stream.batch.buffers, 0);
        assert(reads_plainly(stream));
    }
}

/// Whether `outcome` is what encoding a batch can give. What comes of it is a complete stream.
/// A batch with a plain schema has messages, and fails only for their size, and the stream of a
/// plain batch decodes to that batch.
pub open spec fn batch_model_encodes(
    batch: BatchModel,
    outcome: Result<Seq<u8>, ErrorModel>,
) -> bool {
    &&& encodes(batch, outcome)
    &&& outcome matches Ok(bytes) ==> is_framed(bytes)
    &&& plain_batch(batch) ==> (outcome matches Ok(bytes) ==> decodes_to(bytes, batch))
    &&& plain_schema(batch) ==> (outcome matches Err(error) ==> over_limit(error))
    &&& plain_schema(batch) ==> (schema_message(batch) matches Ok(schema) && (schema.len()
        <= MAX_ARROW_PAYLOAD_LEN ==> batch_messages(batch) is Ok))
}

/// Encodes a record batch as one complete stream. A batch with a plain schema that fits is
/// encoded, and what a plain batch is encoded as decodes to the same batch.
pub fn encode_batch(batch: &RecordBatch) -> (encoded: Result<Vec<u8>, UWireError>)
    requires
        writes(batch_model(*batch), MAX_ARROW_PAYLOAD_LEN),
    ensures
        batch_model_encodes(batch_model(*batch), encoded_view(encoded)),
{
    let output = BoundedWriter::new(MAX_ARROW_PAYLOAD_LEN);
    let mut writer = match create_stream(output, batch) {
        Ok(writer) => writer,
        Err(detail) => {
            return Err(WireError::SerializationError { step: EncodeStep::CreateStream, detail });
        },
    };
    let ghost schema = writer_written(writer);
    match write_batch(&mut writer, batch) {
        Ok(()) => {},
        Err(detail) => {
            return Err(WireError::SerializationError { step: EncodeStep::WriteBatch, detail });
        },
    }
    let ghost messages = batch_messages(batch_model(*batch))->Ok_0;
    match finish_stream(writer) {
        Ok(output) => {
            proof {
                lemma_encoded_stream(batch_model(*batch), schema, messages);
            }
            Ok(output.into_inner())
        },
        Err(detail) => Err(
            WireError::SerializationError { step: EncodeStep::FinishStream, detail },
        ),
    }
}

/// Whether `outcome` is what encoding a value can give: the error of its conversion, or what
/// encoding its batch gives.
pub open spec fn batch_encodes(
    batch: Result<RecordBatch, UWireError>,
    outcome: Result<Seq<u8>, ErrorModel>,
) -> bool {
    match batch {
        Err(error) => outcome == Err::<Seq<u8>, ErrorModel>(error@),
        Ok(built) => batch_model_encodes(batch_model(built), outcome),
    }
}

/// Whether `outcome` is what encoding `value` can give, through what its conversion can give.
pub open spec fn value_encodes<T: ArrowWirePayload>(
    value: &T,
    outcome: Result<Seq<u8>, ErrorModel>,
) -> bool {
    exists|batch: Result<RecordBatch, UWireError>|
        #[trigger] call_ensures(T::to_record_batch, (value,), batch) && batch_encodes(
            batch,
            outcome,
        )
}

/// Whether `outcome` is what decoding a payload can give: the fault of the payload, or what
/// the conversion of its batch can give.
pub open spec fn payload_decodes<T: ArrowWirePayload>(
    src: Seq<u8>,
    outcome: Result<T, UWireError>,
) -> bool {
    match decoding(src) {
        Err(fault) => outcome matches Err(error) && error@ == WireError::InvalidPayload(fault),
        Ok(model) => exists|batch: RecordBatch|
            batch_model(batch) == model && #[trigger] call_ensures(
                T::from_record_batch,
                (batch,),
                outcome,
            ),
    }
}

/// Whether a value can be encoded without a panic: whatever batch its conversion gives, writing
/// it returns.
pub open spec fn encodable<T: ArrowWirePayload>(value: &T) -> bool {
    forall|batch: RecordBatch|
        #[trigger] call_ensures(
            T::to_record_batch,
            (value,),
            Ok::<RecordBatch, UWireError>(batch),
        ) ==> writes(batch_model(batch), MAX_ARROW_PAYLOAD_LEN)
}

/// Encodes a value as one complete stream.
pub fn encode_value<T: ArrowWirePayload>(value: &T) -> (encoded: Result<Vec<u8>, UWireError>)
    requires
        encodable(value),
    ensures
        value_encodes(value, encoded_view(encoded)),
{
    let converted = value.to_record_batch();
    match converted {
        Ok(batch) => {
            let encoded = encode_batch(&batch);
            assert(batch_encodes(Ok(batch), encoded_view(encoded)));
            encoded
        },
        Err(error) => {
            assert(batch_encodes(Err(error), Err(error@)));
            Err(error)
        },
    }
}

/// Whether `outcome` is what encoding `value` can give where only a batch with a plain schema
/// is encoded: `None` stands for a batch with another one.
pub open spec fn value_tries<T: ArrowWirePayload>(
    value: &T,
    outcome: Option<Result<Seq<u8>, ErrorModel>>,
) -> bool {
    exists|batch: Result<RecordBatch, UWireError>| #[trigger]
        call_ensures(T::to_record_batch, (value,), batch) && match outcome {
            Some(encoded) => batch_encodes(batch, encoded) && (batch matches Ok(built)
                ==> plain_schema(batch_model(built))),
            None => batch matches Ok(built) && !plain_schema(batch_model(built)),
        }
}

/// A tried encoding outcome in contracts.
pub open spec fn tried_view(tried: Option<Result<Vec<u8>, UWireError>>) -> Option<
    Result<Seq<u8>, ErrorModel>,
> {
    match tried {
        Some(encoded) => Some(encoded_view(encoded)),
        None => None,
    }
}

/// Encodes a record batch where it has a plain schema, of which it is known that it can be
/// written. Gives `None` where it has another one.
pub fn try_encode_batch(batch: &RecordBatch) -> (tried: Option<Result<Vec<u8>, UWireError>>)
    ensures
        tried is Some <==> plain_schema(batch_model(*batch)),
        tried matches Some(encoded) ==> batch_model_encodes(
            batch_model(*batch),
            encoded_view(encoded),
        ),
{
    if check_schema(batch) {
        Some(encode_batch(batch))
    } else {
        None
    }
}

/// Encodes a value where its batch has a plain schema. Gives `None` where it has another one.
pub fn try_encode_value<T: ArrowWirePayload>(value: &T) -> (tried: Option<
    Result<Vec<u8>, UWireError>,
>)
    ensures
        value_tries(value, tried_view(tried)),
{
    let converted = value.to_record_batch();
    match converted {
        Ok(batch) => {
            let tried = try_encode_batch(&batch);
            assert(tried matches Some(encoded) ==> batch_encodes(
                Ok(batch),
                encoded_view(encoded),
            ));
            tried
        },
        Err(error) => {
            assert(batch_encodes(Err(error), Err(error@)));
            Some(Err(error))
        },
    }
}

/// Takes the only batch of a stream, given the first item that its reader yields and whether
/// another one follows.
pub fn only_batch(
    first: Option<Result<RecordBatch, String>>,
    another: bool,
) -> (batch: Result<RecordBatch, UWireError>)
    ensures
        match first {
            Some(Ok(item)) => if another {
                batch matches Err(error) && error@ == WireError::InvalidPayload(
                    FaultModel::ManyBatches,
                )
            } else {
                batch == Ok::<RecordBatch, UWireError>(item)
            },
            Some(Err(detail)) => batch matches Err(error) && error@ == WireError::InvalidPayload(
                PayloadFault::Decode(detail@),
            ),
            None => batch matches Err(error) && error@ == WireError::InvalidPayload(
                FaultModel::NoBatch,
            ),
        },
{
    match first {
        Some(Ok(item)) => {
            if another {
                return Err(WireError::InvalidPayload(PayloadFault::ManyBatches));
            }
            Ok(item)
        },
        Some(Err(detail)) => Err(WireError::InvalidPayload(PayloadFault::Decode(detail))),
        None => Err(WireError::InvalidPayload(PayloadFault::NoBatch)),
    }
}

/// Decodes the value in one complete stream.
pub fn decode_value<T: ArrowWirePayload>(src: &[u8]) -> (decoded: Result<T, UWireError>)
    requires
        decodable(src@),
    ensures
        payload_decodes(src@, decoded),
{
    ensure_payload_limit(src.len())?;
    validate_ipc_envelope(src)?;
    let mut reader = match open_stream(src) {
        Ok(reader) => reader,
        Err(detail) => return Err(WireError::InvalidPayload(PayloadFault::Open(detail))),
    };
    let first = next_batch(&mut reader);
    let another = match &first {
        Some(Ok(_)) => next_batch(&mut reader).is_some(),
        _ => false,
    };
    let batch = only_batch(first, another)?;
    T::from_record_batch(batch)
}

/// `bytes::Bytes`, the owned form of a payload.
#[verifier::external_type_specification]
#[verifier::external_body]
pub struct ExBytes(Bytes);

/// The bytes of a `Bytes`.
pub uninterp spec fn bytes_content(bytes: Bytes) -> Seq<u8>;

/// `Bytes::from` on a `Vec<u8>`, which keeps the bytes.
#[verifier::external_body]
fn owned_bytes(bytes: Vec<u8>) -> (owned: Bytes)
    ensures
        bytes_content(owned) == bytes@,
{
    Bytes::from(bytes)
}

/// The size and alignment that an encoded payload needs.
#[derive(Clone, Copy, Debug, PartialEq, Eq)]
pub struct PayloadLayout {
    len: usize,
    align: usize,
}

impl PayloadLayout {
    /// The length, in contracts.
    pub closed spec fn spec_len(&self) -> usize {
        self.len
    }

    /// The alignment, in contracts.
    pub closed spec fn spec_align(&self) -> usize {
        self.align
    }

    /// The length in bytes.
    pub fn len(&self) -> (len: usize)
        ensures
            len == self.spec_len(),
    {
        self.len
    }

    /// The alignment in bytes.
    pub fn align(&self) -> (align: usize)
        ensures
            align == self.spec_align(),
    {
        self.align
    }
}

/// Whether `layout` is that of an encoding outcome: its length, and no alignment.
pub open spec fn layout_of_outcome(
    outcome: Result<Seq<u8>, ErrorModel>,
    layout: Result<PayloadLayout, UWireError>,
) -> bool {
    match layout {
        Ok(found) => outcome matches Ok(bytes) && found.spec_len() == bytes.len()
            && found.spec_align() == 1,
        Err(error) => outcome == Err::<Seq<u8>, ErrorModel>(error@),
    }
}

/// Whether an encoding outcome was placed in a destination: at its front, with the rest as it
/// was, or not at all where it does not fit or there is none.
pub open spec fn placed(
    outcome: Result<Seq<u8>, ErrorModel>,
    before: Seq<u8>,
    done: Result<(), UWireError>,
    after: Seq<u8>,
) -> bool {
    match outcome {
        Ok(bytes) => if bytes.len() <= before.len() {
            done is Ok && after == bytes + before.skip(bytes.len() as int)
        } else {
            done matches Err(error) && error@ == ErrorModel::BufferTooSmall {
                expected: bytes.len() as usize,
                actual: before.len() as usize,
            } && after == before
        },
        Err(fault) => done matches Err(error) && error@ == fault && after == before,
    }
}

/// An owned encoding in contracts.
pub open spec fn owned_view(encoded: Result<Bytes, UWireError>) -> Result<Seq<u8>, ErrorModel> {
    match encoded {
        Ok(bytes) => Ok(bytes_content(bytes)),
        Err(error) => Err(error@),
    }
}

/// Gives the layout of an encoding.
fn measure(encoded: Result<Vec<u8>, UWireError>) -> (layout: Result<PayloadLayout, UWireError>)
    ensures
        layout_of_outcome(encoded_view(encoded), layout),
{
    match encoded {
        Ok(bytes) => Ok(PayloadLayout { len: bytes.len(), align: 1 }),
        Err(error) => Err(error),
    }
}

/// Places an encoding in the front of `dst`.
fn place(encoded: Result<Vec<u8>, UWireError>, dst: &mut [u8]) -> (done: Result<(), UWireError>)
    ensures
        placed(encoded_view(encoded), old(dst)@, done, final(dst)@),
{
    let bytes = match encoded {
        Ok(bytes) => bytes,
        Err(error) => return Err(error),
    };
    let actual: usize = dst.len();
    if bytes.len() > actual {
        return Err(WireError::BufferTooSmall { expected: bytes.len(), actual });
    }
    let mut index: usize = 0;
    while index < bytes.len()
        invariant
            index <= bytes.len() <= dst@.len(),
            dst@.len() == old(dst)@.len(),
            dst@ =~= bytes@.take(index as int) + old(dst)@.skip(index as int),
        decreases bytes.len() - index,
    {
        dst[index] = bytes[index];
        index = index + 1;
    }
    assert(bytes@.take(index as int) =~= bytes@);
    Ok(())
}

/// What reading a payload of a declared length from a reader came to.
#[derive(Clone, Debug, PartialEq, Eq)]
pub enum ReadOutcome {
    /// These bytes came, and no more.
    Filled(Vec<u8>),
    /// Fewer bytes came, for the reason given.
    Short(String),
    /// More bytes came.
    Long,
}

/// Whether `outcome` is what decoding a payload from a reader can give.
pub open spec fn read_decodes<T: ArrowWirePayload>(
    payload_len: usize,
    read: ReadOutcome,
    outcome: Result<T, UWireError>,
) -> bool {
    if payload_len > MAX_ARROW_PAYLOAD_LEN {
        outcome matches Err(error) && error@ == WireError::InvalidPayload(
            FaultModel::TooLong(payload_len),
        )
    } else {
        match read {
            ReadOutcome::Filled(bytes) => if bytes@.len() < payload_len {
                outcome matches Err(error) && error@ == WireError::InvalidPayload(
                    PayloadFault::ShortRead {
                        declared: payload_len,
                        detail: "failed to fill whole buffer"@,
                    },
                )
            } else if bytes@.len() > payload_len {
                outcome matches Err(error) && error@ == WireError::InvalidPayload(
                    FaultModel::LongRead(payload_len),
                )
            } else {
                payload_decodes(bytes@, outcome)
            },
            ReadOutcome::Short(detail) => outcome matches Err(error) && error@
                == WireError::InvalidPayload(
                PayloadFault::ShortRead { declared: payload_len, detail: detail@ },
            ),
            ReadOutcome::Long => outcome matches Err(error) && error@ == WireError::InvalidPayload(
                FaultModel::LongRead(payload_len),
            ),
        }
    }
}

/// Whether decoding what was read can be done without a panic.
pub open spec fn read_decodable(payload_len: usize, read: ReadOutcome) -> bool {
    payload_len <= MAX_ARROW_PAYLOAD_LEN ==> (read matches ReadOutcome::Filled(bytes)
        ==> bytes@.len() == payload_len ==> decodable(bytes@))
}

/// Whether it shows before opening its stream that what was read can be decoded.
pub open spec fn read_plainly_decodable(payload_len: usize, read: ReadOutcome) -> bool {
    payload_len <= MAX_ARROW_PAYLOAD_LEN ==> (read matches ReadOutcome::Filled(bytes)
        ==> bytes@.len() == payload_len ==> plainly_decodable(bytes@))
}

/// Apache Arrow IPC selected-wire marker.
#[derive(Clone, Copy, Debug, PartialEq, Eq)]
pub struct ArrowWire;

impl Default for ArrowWire {
    fn default() -> (wire: Self)
        ensures
            wire == ArrowWire,
    {
        ArrowWire
    }
}

impl ArrowWire {
    /// The size and alignment of a value's encoding, found by encoding it.
    pub fn payload_layout<T: ArrowWirePayload>(value: &T) -> (layout: Result<
        PayloadLayout,
        UWireError,
    >)
        requires
            encodable(value),
        ensures
            exists|outcome: Result<Seq<u8>, ErrorModel>| #[trigger]
                value_encodes(value, outcome) && layout_of_outcome(outcome, layout),
    {
        let encoded = encode_value(value);
        assert(value_encodes(value, encoded_view(encoded)));
        measure(encoded)
    }

    /// Encodes a value into the front of `dst` and leaves the rest of it alone. A destination
    /// that is too small stays as it was.
    pub fn encode_payload<T: ArrowWirePayload>(value: &T, dst: &mut [u8]) -> (done: Result<
        (),
        UWireError,
    >)
        requires
            encodable(value),
        ensures
            exists|outcome: Result<Seq<u8>, ErrorModel>| #[trigger]
                value_encodes(value, outcome) && placed(outcome, old(dst)@, done, final(dst)@),
    {
        let encoded = encode_value(value);
        assert(value_encodes(value, encoded_view(encoded)));
        place(encoded, dst)
    }

    /// Encodes a value into bytes of its own.
    pub fn encode_payload_owned<T: ArrowWirePayload>(value: &T) -> (encoded: Result<
        Bytes,
        UWireError,
    >)
        requires
            encodable(value),
        ensures
            value_encodes(value, owned_view(encoded)),
    {
        match encode_value(value) {
            Ok(bytes) => Ok(owned_bytes(bytes)),
            Err(error) => Err(error),
        }
    }

    /// As `payload_layout`, where the value's batch has a plain schema. Gives `None` where it
    /// has another one.
    pub fn try_payload_layout<T: ArrowWirePayload>(value: &T) -> (layout: Option<
        Result<PayloadLayout, UWireError>,
    >)
        ensures
            exists|outcome: Option<Result<Seq<u8>, ErrorModel>>| #[trigger]
                value_tries(value, outcome) && match layout {
                    Some(found) => outcome matches Some(encoded) && layout_of_outcome(
                        encoded,
                        found,
                    ),
                    None => outcome is None,
                },
    {
        let tried = try_encode_value(value);
        assert(value_tries(value, tried_view(tried)));
        match tried {
            Some(encoded) => Some(measure(encoded)),
            None => None,
        }
    }

    /// As `encode_payload`, where the value's batch has a plain schema. Gives `None`, and leaves
    /// `dst` as it was, where it has another one.
    pub fn try_encode_payload<T: ArrowWirePayload>(value: &T, dst: &mut [u8]) -> (done: Option<
        Result<(), UWireError>,
    >)
        ensures
            exists|outcome: Option<Result<Seq<u8>, ErrorModel>>| #[trigger]
                value_tries(value, outcome) && match done {
                    Some(written) => outcome matches Some(encoded) && placed(
                        encoded,
                        old(dst)@,
                        written,
                        final(dst)@,
                    ),
                    None => outcome is None && final(dst)@ == old(dst)@,
                },
    {
        let tried = try_encode_value(value);
        assert(value_tries(value, tried_view(tried)));
        match tried {
            Some(encoded) => Some(place(encoded, dst)),
            None => None,
        }
    }

    /// As `encode_payload_owned`, where the value's batch has a plain schema. Gives `None` where
    /// it has another one.
    pub fn try_encode_payload_owned<T: ArrowWirePayload>(value: &T) -> (encoded: Option<
        Result<Bytes, UWireError>,
    >)
        ensures
            value_tries(
                value,
                match encoded {
                    Some(owned) => Some(owned_view(owned)),
                    None => None,
                },
            ),
    {
        match try_encode_value(value) {
            Some(Ok(bytes)) => Some(Ok(owned_bytes(bytes))),
            Some(Err(error)) => Some(Err(error)),
            None => None,
        }
    }

    /// Decodes a value.
    pub fn decode_payload<T: ArrowWirePayload>(src: &[u8]) -> (decoded: Result<T, UWireError>)
        requires
            decodable(src@),
        ensures
            payload_decodes(src@, decoded),
    {
        decode_value(src)
    }

    /// Decodes a value from what a reader gave for a payload of the declared length. The
    /// length is checked before what was read, as it is to be checked before reading.
    pub fn decode_payload_from_reader<T: ArrowWirePayload>(
        payload_len: usize,
        read: ReadOutcome,
    ) -> (decoded: Result<T, UWireError>)
        requires
            read_decodable(payload_len, read),
        ensures
            read_decodes(payload_len, read, decoded),
    {
        ensure_payload_limit(payload_len)?;
        match read {
            ReadOutcome::Filled(bytes) => {
                if bytes.len() < payload_len {
                    let detail = "failed to fill whole buffer".to_string();
                    return Err(
                        WireError::InvalidPayload(
                            PayloadFault::ShortRead { declared: payload_len, detail },
                        ),
                    );
                }
                if bytes.len() > payload_len {
                    return Err(WireError::InvalidPayload(PayloadFault::LongRead(payload_len)));
                }
                decode_value(bytes.as_slice())
            },
            ReadOutcome::Short(detail) => Err(
                WireError::InvalidPayload(
                    PayloadFault::ShortRead { declared: payload_len, detail },
                ),
            ),
            ReadOutcome::Long => Err(
                WireError::InvalidPayload(PayloadFault::LongRead(payload_len)),
            ),
        }
    }

    /// Decodes a value where it shows beforehand that its batch can be read: its columns hold
    /// fixed-width values, booleans, strings or byte strings, and their buffers lie in the
    /// message. Gives `None` where it does not.
    pub fn try_decode_payload<T: ArrowWirePayload>(src: &[u8]) -> (decoded: Option<
        Result<T, UWireError>,
    >)
        ensures
            decoded is Some <==> plainly_decodable(src@),
            decoded matches Some(outcome) ==> payload_decodes(src@, outcome),
    {
        if check_payload(src) {
            Some(ArrowWire::decode_payload(src))
        } else {
            None
        }
    }

    /// As `try_decode_payload`, from what a reader gave for a payload of the declared length.
    pub fn try_decode_payload_from_reader<T: ArrowWirePayload>(
        payload_len: usize,
        read: ReadOutcome,
    ) -> (decoded: Option<Result<T, UWireError>>)
        ensures
            decoded is Some <==> read_plainly_decodable(payload_len, read),
            decoded matches Some(outcome) ==> read_decodes(payload_len, read, outcome),
    {
        if payload_len <= MAX_ARROW_PAYLOAD_LEN {
            if let ReadOutcome::Filled(bytes) = &read {
                if bytes.len() == payload_len && !check_payload(bytes.as_slice()) {
                    return None;
                }
            }
        }
        Some(ArrowWire::decode_payload_from_reader(payload_len, read))
    }
}

/// Checks whether a payload shows before reading that it can be decoded.
fn check_payload(src: &[u8]) -> (plain: bool)
    ensures
        plain == plainly_decodable(src@),
{
    if src.len() > MAX_ARROW_PAYLOAD_LEN {
        return true;
    }
    match find_stream(src) {
        Ok(stream) => check_stream(&stream),
        Err(_) => true,
    }
}

} // verus!

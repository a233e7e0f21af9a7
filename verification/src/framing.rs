//! Which byte strings are accepted as streams, stated by what they are made of.
use vstd::prelude::*;

use crate::envelope::{
    batches_of, envelope, ipc_eos, le_u32, message_site, prefix_at, schemas_of, sites_from,
    step_over, Prefix, Site, StreamSite, IPC_CONTINUATION_MARKER,
};
use crate::error::{FaultModel, PayloadFault};
use crate::message::message_info;

verus! {

/// A message of a stream.
pub ghost struct Frame {
    /// Whether a continuation marker stands before the metadata length.
    pub marked: bool,
    /// The metadata.
    pub metadata: Seq<u8>,
    /// The body.
    pub body: Seq<u8>,
}

/// A number as four little-endian bytes.
pub open spec fn le_bytes(n: int) -> Seq<u8> {
    seq![
        (n % 0x100) as u8,
        (n / 0x100 % 0x100) as u8,
        (n / 0x1_0000 % 0x100) as u8,
        (n / 0x100_0000 % 0x100) as u8,
    ]
}

/// The prefix of a message whose metadata has `len` bytes.
pub open spec fn prefix_bytes(marked: bool, len: int) -> Seq<u8> {
    if marked {
        le_bytes(IPC_CONTINUATION_MARKER as int) + le_bytes(len)
    } else {
        le_bytes(len)
    }
}

/// The bytes of a message.
pub open spec fn frame_bytes(frame: Frame) -> Seq<u8> {
    prefix_bytes(frame.marked, frame.metadata.len() as int) + frame.metadata + frame.body
}

/// What a message holds.
pub open spec fn frame_site(frame: Frame) -> Site {
    message_site(message_info(frame.metadata)->Ok_0)->Ok_0
}

/// Whether a message can stand in a stream: its metadata has a length that the prefix can
/// give and parses to a message that announces the body's length, and a record batch in it
/// is not compressed.
pub open spec fn frame_accepted(frame: Frame) -> bool {
    &&& 0 < frame.metadata.len() <= u32::MAX
    &&& !frame.marked ==> frame.metadata.len() < IPC_CONTINUATION_MARKER
    &&& message_info(frame.metadata) matches Ok(message)
    &&& message.body_length == frame.body.len()
    &&& message_site(message) is Ok
}

/// Whether a message can stand in a stream as far as its metadata parses.
pub open spec fn frame_sound(frame: Frame) -> bool {
    &&& 0 < frame.metadata.len() <= u32::MAX
    &&& !frame.marked ==> frame.metadata.len() < IPC_CONTINUATION_MARKER
    &&& message_info(frame.metadata) is Ok ==> frame_accepted(frame)
}

/// The bytes of a stream of the given messages.
pub open spec fn stream_bytes(frames: Seq<Frame>) -> Seq<u8>
    decreases frames.len(),
{
    if frames.len() == 0 {
        ipc_eos()
    } else {
        frame_bytes(frames[0]) + stream_bytes(frames.drop_first())
    }
}

/// What the given messages hold.
pub open spec fn frame_sites(frames: Seq<Frame>) -> Seq<Site> {
    frames.map_values(|frame: Frame| frame_site(frame))
}

/// Whether each of the given messages can stand in a stream.
pub open spec fn frames_accepted(frames: Seq<Frame>) -> bool {
    forall|i: int| 0 <= i < frames.len() ==> #[trigger] frame_accepted(frames[i])
}

/// Whether `src` is a stream of the given messages with exactly one record batch.
pub open spec fn is_stream_of(src: Seq<u8>, frames: Seq<Frame>) -> bool {
    &&& src == stream_bytes(frames)
    &&& frames_accepted(frames)
    &&& batches_of(frame_sites(frames)).len() == 1
}

proof fn lemma_le_round(n: int)
    requires
        0 <= n <= u32::MAX,
    ensures
        le_u32(le_bytes(n), 0) == n,
{
}

proof fn lemma_le_unique(src: Seq<u8>, at: int)
    requires
        0 <= at,
        at + 4 <= src.len(),
    ensures
        0 <= le_u32(src, at) <= u32::MAX,
        src.subrange(at, at + 4) == le_bytes(le_u32(src, at)),
{
    let (a, b) = (src[at] as int, src[at + 1] as int);
    let (c, d) = (src[at + 2] as int, src[at + 3] as int);
    let n = le_u32(src, at);
    assert(n % 0x100 == a && n / 0x100 == b + 0x100 * c + 0x1_0000 * d);
    assert((b + 0x100 * c + 0x1_0000 * d) % 0x100 == b);
    assert(n / 0x1_0000 == c + 0x100 * d);
    assert((c + 0x100 * d) % 0x100 == c);
    assert(n / 0x100_0000 == d);
    assert(d % 0x100 == d);
    assert(src.subrange(at, at + 4) =~= le_bytes(n));
}

proof fn lemma_le_shift(src: Seq<u8>, at: int, part: Seq<u8>)
    requires
        0 <= at,
        at + 4 <= src.len(),
        part == src.subrange(at, at + 4),
    ensures
        le_u32(src, at) == le_u32(part, 0),
{
}

/// A message that stands at `offset` is found there.
proof fn lemma_frame_found(src: Seq<u8>, offset: int, frame: Frame)
    requires
        src.len() <= usize::MAX,
        0 <= offset,
        offset + frame_bytes(frame).len() <= src.len(),
        src.subrange(offset, offset + frame_bytes(frame).len()) == frame_bytes(frame),
        0 < frame.metadata.len() <= u32::MAX,
        !frame.marked ==> frame.metadata.len() < IPC_CONTINUATION_MARKER,
    ensures
        ({
            let start = offset + prefix_bytes(frame.marked, frame.metadata.len() as int).len();
            let end = start + frame.metadata.len();
            &&& prefix_at(src, offset) == Ok::<Prefix, FaultModel>(Prefix::Message { start, end })
            &&& src.subrange(start, end) == frame.metadata
            &&& end + frame.body.len() == offset + frame_bytes(frame).len()
        }),
{
    let len = frame.metadata.len() as int;
    let prefix = prefix_bytes(frame.marked, len);
    let bytes = frame_bytes(frame);
    let start = offset + prefix.len();
    let end = start + len;
    lemma_le_round(len);
    lemma_le_round(IPC_CONTINUATION_MARKER as int);
    assert(bytes.subrange(0, prefix.len() as int) =~= prefix);
    assert(bytes.subrange(prefix.len() as int, prefix.len() + len) =~= frame.metadata);
    assert forall|i: int| 0 <= i < bytes.len() implies src[offset + i] == bytes[i] by {
        assert(src.subrange(offset, offset + bytes.len())[i] == bytes[i]);
    }
    assert(src.subrange(start, end) =~= frame.metadata);
    if frame.marked {
        assert(prefix.subrange(0, 4) =~= le_bytes(IPC_CONTINUATION_MARKER as int));
        assert(prefix.subrange(4, 8) =~= le_bytes(len));
        assert(src.subrange(offset, offset + 4) =~= le_bytes(IPC_CONTINUATION_MARKER as int));
        assert(src.subrange(offset + 4, offset + 8) =~= le_bytes(len));
        lemma_le_shift(src, offset, le_bytes(IPC_CONTINUATION_MARKER as int));
        lemma_le_shift(src, offset + 4, le_bytes(len));
    } else {
        assert(src.subrange(offset, offset + 4) =~= le_bytes(len));
        lemma_le_shift(src, offset, le_bytes(len));
    }
}

/// What is stepped over is an accepted message.
proof fn lemma_read_frame(src: Seq<u8>, offset: int, start: int, end: int) -> (frame: Frame)
    requires
        0 <= offset,
        prefix_at(src, offset) == Ok::<Prefix, FaultModel>(
            Prefix::Message { start, end },
        ),
        step_over(src.len(), end, message_info(src.subrange(start, end))) is Ok,
    ensures
        ({
            let step = step_over(src.len(), end, message_info(src.subrange(start, end)))->Ok_0;
            &&& frame_accepted(frame)
            &&& offset < step.next <= src.len()
            &&& src.subrange(offset, step.next) == frame_bytes(frame)
            &&& step.site == frame_site(frame)
        }),
{
    let step = step_over(src.len(), end, message_info(src.subrange(start, end)))->Ok_0;
    let marked = le_u32(src, offset) == IPC_CONTINUATION_MARKER;
    let frame = Frame {
        marked,
        metadata: src.subrange(start, end),
        body: src.subrange(end, step.next),
    };
    lemma_le_unique(src, offset);
    if marked {
        lemma_le_unique(src, offset + 4);
        assert(src.subrange(offset, offset + 8) =~= src.subrange(offset, offset + 4)
            + src.subrange(offset + 4, offset + 8));
    }
    assert(src.subrange(offset, start) =~= prefix_bytes(marked, end - start));
    assert(src.subrange(offset, step.next) =~= frame_bytes(frame));
    frame
}

/// A stream of sound messages is read as what they hold, or refused for metadata that
/// does not parse.
proof fn lemma_stream_read(src: Seq<u8>, offset: int, frames: Seq<Frame>)
    requires
        src.len() <= usize::MAX,
        0 <= offset <= src.len(),
        src.subrange(offset, src.len() as int) == stream_bytes(frames),
        forall|i: int| 0 <= i < frames.len() ==> #[trigger] frame_sound(frames[i]),
    ensures
        match sites_from(src, offset) {
            Ok(sites) => frames_accepted(frames) && sites == frame_sites(frames),
            Err(fault) => fault is Metadata && !frames_accepted(frames),
        },
    decreases frames.len(),
{
    let tail = src.subrange(offset, src.len() as int);
    if frames.len() == 0 {
        assert(tail.subrange(0, 4) =~= le_bytes(IPC_CONTINUATION_MARKER as int));
        assert(tail.subrange(4, 8) =~= le_bytes(0));
        assert(src.subrange(offset, offset + 4) =~= tail.subrange(0, 4));
        assert(src.subrange(offset + 4, offset + 8) =~= tail.subrange(4, 8));
        lemma_le_round(IPC_CONTINUATION_MARKER as int);
        lemma_le_round(0);
        lemma_le_shift(src, offset, le_bytes(IPC_CONTINUATION_MARKER as int));
        lemma_le_shift(src, offset + 4, le_bytes(0));
    } else {
        let bytes = frame_bytes(frames[0]);
        let rest = frames.drop_first();
        assert(frame_sound(frames[0]));
        assert(src.subrange(offset, offset + bytes.len()) =~= tail.subrange(
            0,
            bytes.len() as int,
        ));
        assert(tail.subrange(0, bytes.len() as int) =~= bytes);
        lemma_frame_found(src, offset, frames[0]);
        if message_info(frames[0].metadata) is Ok {
            assert(src.subrange(offset + bytes.len(), src.len() as int) =~= tail.subrange(
                bytes.len() as int,
                tail.len() as int,
            ));
            assert(tail.subrange(bytes.len() as int, tail.len() as int) =~= stream_bytes(rest));
            assert forall|i: int| 0 <= i < rest.len() implies #[trigger] frame_sound(rest[i]) by {
                assert(frame_sound(frames[i + 1]));
            }
            lemma_stream_read(src, offset + bytes.len(), rest);
            if frames_accepted(rest) {
                assert forall|i: int| 0 <= i < frames.len() implies #[trigger] frame_accepted(
                    frames[i],
                ) by {
                    if i > 0 {
                        assert(frame_accepted(rest[i - 1]));
                    }
                }
            } else {
                let i = choose|i: int| 0 <= i < rest.len() && !#[trigger] frame_accepted(rest[i]);
                assert(!frame_accepted(frames[i + 1]));
            }
        } else {
            assert(!frame_accepted(frames[0]));
        }
    }
}

/// What is read without a fault is a stream of accepted messages.
proof fn lemma_read_stream(src: Seq<u8>, offset: int) -> (frames: Seq<Frame>)
    requires
        0 <= offset <= src.len(),
        sites_from(src, offset) is Ok,
    ensures
        src.subrange(offset, src.len() as int) == stream_bytes(frames),
        frames_accepted(frames),
        sites_from(src, offset) == Ok::<Seq<Site>, FaultModel>(
            frame_sites(frames),
        ),
    decreases src.len() - offset,
{
    match prefix_at(src, offset)->Ok_0 {
        Prefix::End => {
            lemma_le_unique(src, offset);
            lemma_le_unique(src, offset + 4);
            let tail = src.subrange(offset, src.len() as int);
            assert(tail =~= src.subrange(offset, offset + 4) + src.subrange(
                offset + 4,
                offset + 8,
            ));
            assert(tail =~= ipc_eos());
            assert(frame_sites(Seq::empty()) =~= Seq::empty());
            Seq::empty()
        },
        Prefix::Message { start, end } => {
            let step = step_over(src.len(), end, message_info(src.subrange(start, end)))->Ok_0;
            let first = lemma_read_frame(src, offset, start, end);
            let rest = lemma_read_stream(src, step.next);
            let frames = seq![first] + rest;
            assert(frames.drop_first() =~= rest);
            assert(frame_sites(frames) =~= seq![frame_site(first)] + frame_sites(rest));
            assert(src.subrange(offset, src.len() as int) =~= src.subrange(offset, step.next)
                + src.subrange(step.next, src.len() as int));
            frames
        },
    }
}

/// A byte string is accepted as a stream exactly if it is a sequence of complete messages
/// with parsable metadata, exactly one of them a record batch and that one uncompressed,
/// followed by the eight-byte end-of-stream marker and nothing more.
pub proof fn law_accepted_streams(src: Seq<u8>)
    requires
        src.len() <= usize::MAX,
    ensures
        envelope(src) is Ok <==> exists|frames: Seq<Frame>| is_stream_of(src, frames),
{
    assert(src.subrange(0, src.len() as int) =~= src);
    if envelope(src) is Ok {
        let frames = lemma_read_stream(src, 0);
        assert(is_stream_of(src, frames));
    }
    if exists|frames: Seq<Frame>| is_stream_of(src, frames) {
        let frames = choose|frames: Seq<Frame>| is_stream_of(src, frames);
        assert forall|i: int| 0 <= i < frames.len() implies #[trigger] frame_sound(frames[i]) by {
            assert(frame_accepted(frames[i]));
        }
        lemma_stream_read(src, 0, frames);
    }
}

/// A stream of sound messages with one record batch is read as that batch, or refused for
/// metadata that does not parse.
pub proof fn law_sound_stream(src: Seq<u8>, frames: Seq<Frame>)
    requires
        src.len() <= usize::MAX,
        src == stream_bytes(frames),
        forall|i: int| 0 <= i < frames.len() ==> #[trigger] frame_sound(frames[i]),
        frames_accepted(frames) ==> batches_of(frame_sites(frames)).len() == 1,
    ensures
        match envelope(src) {
            Ok(stream) => {
                &&& frames_accepted(frames)
                &&& stream.batch == batches_of(frame_sites(frames))[0]
                &&& stream.schemas == schemas_of(frame_sites(frames))
            },
            Err(fault) => fault is Metadata && !frames_accepted(frames),
        },
{
    assert(src.subrange(0, src.len() as int) =~= src);
    lemma_stream_read(src, 0, frames);
}

/// An accepted stream ends in the end-of-stream marker.
pub proof fn law_ends_in_eos(src: Seq<u8>)
    requires
        envelope(src) is Ok,
    ensures
        src.len() >= 8,
        src.skip(src.len() - 8) == ipc_eos(),
{
    assert(src.subrange(0, src.len() as int) =~= src);
    let frames = lemma_read_stream(src, 0);
    lemma_stream_end(frames);
}

proof fn lemma_stream_end(frames: Seq<Frame>)
    ensures
        stream_bytes(frames).len() >= 8,
        stream_bytes(frames).skip(stream_bytes(frames).len() - 8) == ipc_eos(),
    decreases frames.len(),
{
    let bytes = stream_bytes(frames);
    if frames.len() == 0 {
        assert(bytes.skip(0) =~= ipc_eos());
    } else {
        let rest = stream_bytes(frames.drop_first());
        lemma_stream_end(frames.drop_first());
        assert(bytes.skip(bytes.len() - 8) =~= rest.skip(rest.len() - 8));
    }
}

proof fn lemma_extended(src: Seq<u8>, extra: Seq<u8>, offset: int)
    requires
        0 <= offset <= src.len(),
        sites_from(src, offset) is Ok,
        extra.len() > 0,
    ensures
        sites_from(src + extra, offset) == Err::<Seq<Site>, FaultModel>(
            PayloadFault::TrailingBytes,
        ),
    decreases src.len() - offset,
{
    let long = src + extra;
    assert(le_u32(long, offset) == le_u32(src, offset));
    match prefix_at(src, offset)->Ok_0 {
        Prefix::End => {
            assert(le_u32(long, offset + 4) == le_u32(src, offset + 4));
        },
        Prefix::Message { start, end } => {
            if le_u32(src, offset) == IPC_CONTINUATION_MARKER {
                assert(le_u32(long, offset + 4) == le_u32(src, offset + 4));
            }
            assert(prefix_at(long, offset) == prefix_at(src, offset));
            assert(long.subrange(start, end) =~= src.subrange(start, end));
            let parsed = message_info(src.subrange(start, end));
            let step = step_over(src.len(), end, parsed)->Ok_0;
            assert(step_over(long.len(), end, parsed) == step_over(src.len(), end, parsed));
            lemma_extended(src, extra, step.next);
        },
    }
}

/// Bytes after the end-of-stream marker are refused as such, whatever they are: a second
/// marker, too.
pub proof fn law_trailing_bytes(src: Seq<u8>, extra: Seq<u8>)
    requires
        envelope(src) is Ok,
        extra.len() > 0,
    ensures
        envelope(src + extra) == Err::<StreamSite, FaultModel>(
            PayloadFault::TrailingBytes,
        ),
{
    lemma_extended(src, extra, 0);
}

proof fn lemma_shortened(src: Seq<u8>, keep: int, offset: int)
    requires
        0 <= offset <= keep < src.len(),
        sites_from(src, offset) is Ok,
    ensures
        sites_from(src.take(keep), offset) is Err,
    decreases src.len() - offset,
{
    let short = src.take(keep);
    if offset + 4 <= keep {
        assert(le_u32(short, offset) == le_u32(src, offset));
        if offset + 8 <= keep {
            assert(le_u32(short, offset + 4) == le_u32(src, offset + 4));
        }
        match prefix_at(src, offset)->Ok_0 {
            Prefix::End => {},
            Prefix::Message { start, end } => {
                if end <= keep {
                    assert(prefix_at(short, offset) == prefix_at(src, offset));
                    assert(short.subrange(start, end) =~= src.subrange(start, end));
                    let parsed = message_info(src.subrange(start, end));
                    let step = step_over(src.len(), end, parsed)->Ok_0;
                    if step.next <= keep {
                        assert(step_over(short.len(), end, parsed) == step_over(
                            src.len(),
                            end,
                            parsed,
                        ));
                        lemma_shortened(src, keep, step.next);
                    }
                }
            },
        }
    }
}

/// A stream that was cut short, anywhere, is refused.
pub proof fn law_truncated_streams(src: Seq<u8>, keep: int)
    requires
        envelope(src) is Ok,
        0 <= keep < src.len(),
    ensures
        envelope(src.take(keep)) is Err,
{
    lemma_shortened(src, keep, 0);
}

} // verus!

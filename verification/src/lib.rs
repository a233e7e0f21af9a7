//! Apache Arrow IPC selected-wire payload support for Eclipse uProtocol.
//!
//! One uncompressed record batch is encoded as one complete Arrow IPC stream.
//! Decoding requires exactly one record batch and an exact terminal end-of-stream
//! marker, refuses trailing bytes, and applies [`MAX_ARROW_PAYLOAD_LEN`] before
//! anything else.
//!
//! - [`envelope`] walks the messages of a stream; [`framing`] says which byte strings
//!   it accepts.
//! - [`bounded`] is the sink that keeps encoding to the size limit.
//! - [`batch`], [`message`] and [`stream`] are the border to the Arrow crates.
//! - [`payload`] is the mapping between application types and record batches, and
//!   [`telemetry`] the reference mapping: columns may be reordered and unknown columns may be
//!   added, but the required columns must be present, non-null and of the exact type.
//! - [`wire`] puts these together; [`laws`] states what holds of encoding and decoding
//!   taken together.
//! - [`parts`], [`columns`], [`readable`], [`calls`] and [`wording`] state what the operations do
//!   by their arguments and results: on streams, telemetry tables, readable streams, payloads and
//!   texts.
use vstd::prelude::*;

pub mod batch;
pub mod bounded;
pub mod calls;
pub mod columns;
pub mod envelope;
pub mod error;
pub mod framing;
pub mod half;
pub mod identity;
pub mod laws;
pub mod message;
pub mod parts;
pub mod payload;
pub mod readable;
pub mod stream;
pub mod telemetry;
pub mod text;
pub mod wire;
pub mod wording;

pub use batch::RecordBatch;
pub use bounded::BoundedWriter;
pub use error::{PayloadFault, UWireError, WireError};
pub use identity::{
    PayloadEncoding, WireIdentity, ARROW_CONTENT_TYPE, ARROW_ENCODING_ID,
};
pub use payload::ArrowWirePayload;
pub use telemetry::TelemetryTableV1;
pub use wire::{ArrowWire, PayloadLayout, ReadOutcome};

verus! {

/// Maximum accepted or produced Arrow IPC payload size (64 MiB).
pub const MAX_ARROW_PAYLOAD_LEN: usize = 64 * 1024 * 1024;

} // verus!
